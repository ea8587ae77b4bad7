//! Element types that a byte buffer can be viewed as.

use vstd::prelude::*;

verus! {

/// A fixed-layout element type without padding, without forbidden bit
/// patterns and without an alignment requirement.
///
/// An implementation describes the type's memory layout to the verifier:
/// [`width`](Plain::width) is the size of a value in bytes and
/// [`image`](Plain::image) the bytes that a value occupies, in address order.
/// The four laws make the description coherent: a value is never empty, every
/// image has the full width, and images and values correspond one to one.
/// That the description matches what the compiler lays out is the claim an
/// implementation makes; the codec relies on it wherever it reinterprets
/// memory.
pub trait Plain: Sized {
    /// The number of bytes that every value of the type occupies.
    spec fn width() -> nat;

    /// The bytes that the value occupies in memory, lowest address first.
    spec fn image(&self) -> Seq<u8>;

    /// The value that occupies `bytes`, for `bytes` of the type's width.
    spec fn from_image(bytes: Seq<u8>) -> Self;

    /// No element type is zero-sized.
    proof fn width_is_positive()
        ensures
            Self::width() > 0,
    ;

    /// Every value fills exactly the type's width.
    proof fn image_has_width(&self)
        ensures
            self.image().len() == Self::width(),
    ;

    /// A value is recovered from its image.
    proof fn image_determines_value(&self)
        ensures
            Self::from_image(self.image()) == *self,
    ;

    /// Every byte pattern of the type's width is the image of a value.
    proof fn every_pattern_is_an_image(bytes: Seq<u8>)
        requires
            bytes.len() == Self::width(),
        ensures
            Self::from_image(bytes).image() == bytes,
    ;
}

/// A byte is its own image.
impl Plain for u8 {
    open spec fn width() -> nat {
        1
    }

    open spec fn image(&self) -> Seq<u8> {
        seq![*self]
    }

    open spec fn from_image(bytes: Seq<u8>) -> Self {
        bytes[0]
    }

    proof fn width_is_positive() {
    }

    proof fn image_has_width(&self) {
    }

    proof fn image_determines_value(&self) {
    }

    proof fn every_pattern_is_an_image(bytes: Seq<u8>) {
        assert(seq![bytes[0]] =~= bytes);
    }
}

/// A signed byte is stored as its two's complement bit pattern.
impl Plain for i8 {
    open spec fn width() -> nat {
        1
    }

    open spec fn image(&self) -> Seq<u8> {
        seq![*self as u8]
    }

    open spec fn from_image(bytes: Seq<u8>) -> Self {
        bytes[0] as i8
    }

    proof fn width_is_positive() {
    }

    proof fn image_has_width(&self) {
    }

    proof fn image_determines_value(&self) {
        let value = *self;
        assert((value as u8) as i8 == value) by (bit_vector);
    }

    proof fn every_pattern_is_an_image(bytes: Seq<u8>) {
        let byte = bytes[0];
        assert((byte as i8) as u8 == byte) by (bit_vector);
        assert(seq![(bytes[0] as i8) as u8] =~= bytes);
    }
}

/// Two bytes in address order, the layout of a 16-bit field stored unaligned.
impl Plain for [u8; 2] {
    open spec fn width() -> nat {
        2
    }

    open spec fn image(&self) -> Seq<u8> {
        self@
    }

    open spec fn from_image(bytes: Seq<u8>) -> Self {
        [bytes[0], bytes[1]]
    }

    proof fn width_is_positive() {
    }

    proof fn image_has_width(&self) {
    }

    proof fn image_determines_value(&self) {
        assert(Self::from_image(self.image()) =~= *self);
    }

    proof fn every_pattern_is_an_image(bytes: Seq<u8>) {
        assert(Self::from_image(bytes)@ =~= bytes);
    }
}

/// Four bytes in address order, the layout of a 32-bit field stored unaligned.
impl Plain for [u8; 4] {
    open spec fn width() -> nat {
        4
    }

    open spec fn image(&self) -> Seq<u8> {
        self@
    }

    open spec fn from_image(bytes: Seq<u8>) -> Self {
        [bytes[0], bytes[1], bytes[2], bytes[3]]
    }

    proof fn width_is_positive() {
    }

    proof fn image_has_width(&self) {
    }

    proof fn image_determines_value(&self) {
        assert(Self::from_image(self.image()) =~= *self);
    }

    proof fn every_pattern_is_an_image(bytes: Seq<u8>) {
        assert(Self::from_image(bytes)@ =~= bytes);
    }
}

/// Eight bytes in address order, the layout of a 64-bit field stored unaligned.
impl Plain for [u8; 8] {
    open spec fn width() -> nat {
        8
    }

    open spec fn image(&self) -> Seq<u8> {
        self@
    }

    open spec fn from_image(bytes: Seq<u8>) -> Self {
        [bytes[0], bytes[1], bytes[2], bytes[3], bytes[4], bytes[5], bytes[6], bytes[7]]
    }

    proof fn width_is_positive() {
    }

    proof fn image_has_width(&self) {
    }

    proof fn image_determines_value(&self) {
        assert(Self::from_image(self.image()) =~= *self);
    }

    proof fn every_pattern_is_an_image(bytes: Seq<u8>) {
        assert(Self::from_image(bytes)@ =~= bytes);
    }
}

} // verus!
