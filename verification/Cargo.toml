[package]
name = "unaligned_codec"
version = "0.1.0"
edition = "2021"
publish = false

[dependencies]
zerocopy = "0.3"

[dev-dependencies]
byteorder = "1"
