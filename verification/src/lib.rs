//! A zero-copy codec between byte buffers and slices of fixed-layout elements.
//!
//! A buffer holds its elements packed end to end: no header, no padding, no
//! length prefix. Encoding views a slice of elements as those bytes; decoding
//! views a buffer as a slice of elements once its length is known to hold a
//! whole number of them. Neither direction copies or allocates.
//!
//! * [`plain`] says which element types qualify and what their bytes are.
//! * [`packing`] is the mathematical model of the packed format and its laws.
//! * [`codec`] holds [`UnalignedSlice`], the executable codec.

pub mod codec;
pub mod packing;
pub mod plain;
mod raw;

pub use codec::UnalignedSlice;
pub use plain::Plain;
