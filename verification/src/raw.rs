//! The two places where memory is reinterpreted. Nothing here is proved: each
//! contract restates what the called code does, in terms of the layout that
//! the element type declares through `Plain`.

use crate::packing::fits;
use crate::packing::pack;
use crate::plain::Plain;
use vstd::prelude::*;
use zerocopy::AsBytes;
use zerocopy::FromBytes;
use zerocopy::LayoutVerified;
use zerocopy::Unaligned;

verus! {

/// Calls `zerocopy::AsBytes::as_bytes` on the slice.
///
/// That method returns the memory of the slice as bytes: `size_of_val` of
/// them, starting at the address of the slice. A slice stores its elements end
/// to end, so these are the images of the elements in order, which is what
/// `pack` describes. The contract takes `T::width` for the size and `T::image`
/// for the memory of a `T`, as an implementation of `Plain` declares them.
#[verifier::external_body]
pub(crate) fn image_of_slice<'a, T: Plain + AsBytes + Unaligned>(items: &'a [T]) -> (bytes: &'a [u8])
    ensures
        bytes@ == pack(items@),
{
    items.as_bytes()
}

/// Calls `zerocopy::LayoutVerified::new_slice_unaligned` on the buffer and
/// turns what it accepted into a slice with `LayoutVerified::into_slice`.
///
/// `new_slice_unaligned` returns `None` exactly when the length of the buffer
/// is not a multiple of `size_of::<T>()`, and otherwise keeps the whole
/// buffer. `into_slice` then gives a slice of `len / size_of::<T>()` elements
/// that starts at the buffer's first byte: the memory of that slice is the
/// buffer, which the contract states with `pack`. It says nothing else of the
/// elements. The contract takes `T::width` for the size and `T::image` for the
/// memory of a `T`, as an implementation of `Plain` declares them.
/// `new_slice_unaligned` panics for a type of size zero; `Plain` has no such
/// type.
#[verifier::external_body]
pub(crate) fn slice_of_image<'a, T: Plain + FromBytes + Unaligned>(bytes: &'a [u8]) -> (items: Option<&'a [T]>)
    ensures
        items is Some <==> fits::<T>(bytes@.len()),
        items matches Some(slice) ==> pack(slice@) == bytes@,
{
    LayoutVerified::<_, [T]>::new_slice_unaligned(bytes).map(LayoutVerified::into_slice)
}

} // verus!
