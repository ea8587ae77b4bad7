//! The codec between byte buffers and slices of unaligned elements.
//!
//! Both directions reinterpret memory that the caller owns, so both ask two
//! things of the element type: `Plain`, which tells the verifier what the
//! bytes of an element are, and the marker traits of `zerocopy`, which tell
//! the compiler that the reinterpretation is sound.

use crate::packing::decoded;
use crate::packing::lemma_decode_iff_divisible;
use crate::packing::lemma_unpack_of_pack;
use crate::packing::pack;
use crate::plain::Plain;
use crate::raw::image_of_slice;
use crate::raw::slice_of_image;
use std::borrow::Cow;
use std::marker::PhantomData;
use vstd::prelude::*;
use zerocopy::AsBytes;
use zerocopy::FromBytes;
use zerocopy::Unaligned;

verus! {

/// The codec for a borrowed slice of elements that have no alignment
/// requirement: the stored bytes are the slice, at whatever address the buffer
/// starts. It is named as a type and never built as a value.
pub struct UnalignedSlice<T>(PhantomData<T>);

impl<T: Plain> UnalignedSlice<T> {
    /// Views a slice of elements as the bytes it occupies.
    ///
    /// Always succeeds, and borrows: the result is the packed form of `item`,
    /// `item.len()` elements of the element width each.
    pub fn bytes_encode<'a>(item: &'a [T]) -> (out: Option<Cow<'a, [u8]>>) where
        T: AsBytes + Unaligned,

        ensures
            out matches Some(Cow::Borrowed(bytes)) && bytes@ == pack(item@) && bytes@.len()
                == item@.len() * T::width(),
    {
        Some(Cow::Borrowed(image_of_slice(item)))
    }

    /// Views a byte buffer as a slice of elements.
    ///
    /// Succeeds exactly when the length of the buffer is a multiple of the
    /// element width, an empty buffer included, and then gives all
    /// `bytes.len() / width` elements of the buffer in order; together they
    /// occupy the whole buffer. A buffer that ends in a partial element is a
    /// layout mismatch and gives `None`. What the bytes mean is not examined:
    /// every byte pattern is an element.
    pub fn bytes_decode<'a>(bytes: &'a [u8]) -> (out: Option<&'a [T]>) where
        T: FromBytes + Unaligned,

        ensures
            match out {
                Some(items) => decoded::<T>(bytes@) == Some(items@),
                None => decoded::<T>(bytes@) is None,
            },
            out is Some <==> bytes@.len() % T::width() == 0,
            out matches Some(items) ==> items@.len() == bytes@.len() / T::width(),
            out matches Some(items) ==> pack(items@) == bytes@,
    {
        let out = slice_of_image(bytes);
        proof {
            lemma_decode_iff_divisible::<T>(bytes@);
            if let Some(items) = out {
                lemma_unpack_of_pack(items@);
            }
        }
        out
    }
}

} // verus!
