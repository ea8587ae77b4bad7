//! The packed format: elements laid end to end, and nothing else.
//!
//! A buffer of `n` elements of width `w` has `n * w` bytes, and byte `k`
//! belongs to element `k / w` at offset `k % w`. The length of the buffer is
//! the only thing that tells how many elements it holds.

use crate::plain::Plain;
use vstd::arithmetic::div_mod::lemma_div_by_multiple;
use vstd::arithmetic::div_mod::lemma_fundamental_div_mod;
use vstd::arithmetic::div_mod::lemma_fundamental_div_mod_converse;
use vstd::arithmetic::div_mod::lemma_mod_bound;
use vstd::arithmetic::div_mod::lemma_mod_multiples_basic;
use vstd::prelude::*;

verus! {

/// Whether a buffer of `len` bytes holds a whole number of elements of `T`,
/// with no partial element at its end.
pub open spec fn fits<T: Plain>(len: nat) -> bool {
    len % T::width() == 0
}

/// The bytes of `items` laid end to end: byte `k` is byte `k % w` of the image
/// of element `k / w`, where `w` is the width of `T`.
pub open spec fn pack<T: Plain>(items: Seq<T>) -> Seq<u8> {
    Seq::new(
        items.len() * T::width(),
        |k: int| items[k / (T::width() as int)].image()[k % (T::width() as int)],
    )
}

/// The bytes of `bytes` that element `i` occupies.
pub open spec fn chunk<T: Plain>(bytes: Seq<u8>, i: int) -> Seq<u8> {
    bytes.subrange(i * T::width(), (i + 1) * T::width())
}

/// The elements that `bytes` holds when read from its start: as many as fit
/// whole, element `i` being the value whose image is chunk `i`.
pub open spec fn unpack<T: Plain>(bytes: Seq<u8>) -> Seq<T> {
    Seq::new(bytes.len() / T::width(), |i: int| T::from_image(chunk::<T>(bytes, i)))
}

/// What decoding `bytes` as elements of `T` gives: the elements of the buffer
/// if its length is a multiple of the width, and a layout mismatch otherwise.
pub open spec fn decoded<T: Plain>(bytes: Seq<u8>) -> Option<Seq<T>> {
    if fits::<T>(bytes.len()) {
        Some(unpack::<T>(bytes))
    } else {
        None
    }
}

/// Element `i` of `n` starts at `i * w` and ends inside the buffer.
proof fn lemma_chunk_bounds(i: int, n: int, w: int)
    by (nonlinear_arith)
    requires
        0 <= i < n,
        0 < w,
    ensures
        0 <= i * w,
        (i + 1) * w == i * w + w,
        (i + 1) * w <= n * w,
{
}

/// A length that is a multiple of `w` is its quotient times `w`.
proof fn lemma_whole_elements(len: int, w: int)
    requires
        0 <= len,
        0 < w,
        len % w == 0,
    ensures
        (len / w) * w == len,
        0 <= len / w,
{
    lemma_fundamental_div_mod(len, w);
    assert(w * (len / w) == (len / w) * w) by (nonlinear_arith);
    assert(0 <= len / w) by (nonlinear_arith)
        requires
            (len / w) * w == len,
            0 <= len,
            0 < w,
    ;
}

/// The bytes of a packed sequence that element `i` occupies are the image of
/// element `i`.
pub proof fn lemma_chunk_of_pack<T: Plain>(items: Seq<T>, i: int)
    requires
        0 <= i < items.len(),
    ensures
        chunk::<T>(pack(items), i) == items[i].image(),
{
    let w = T::width() as int;
    T::width_is_positive();
    items[i].image_has_width();
    lemma_chunk_bounds(i, items.len() as int, w);
    let part = chunk::<T>(pack(items), i);
    assert forall|j: int| 0 <= j < w implies part[j] == items[i].image()[j] by {
        lemma_fundamental_div_mod_converse(i * w + j, w, i, j);
    }
    assert(part =~= items[i].image());
}

/// Unpacking a packed sequence gives the sequence back.
pub proof fn lemma_unpack_of_pack<T: Plain>(items: Seq<T>)
    ensures
        unpack::<T>(pack(items)) == items,
{
    let w = T::width() as int;
    T::width_is_positive();
    lemma_div_by_multiple(items.len() as int, w);
    let back = unpack::<T>(pack(items));
    assert(back.len() == items.len());
    assert forall|i: int| 0 <= i < items.len() implies back[i] == items[i] by {
        lemma_chunk_of_pack(items, i);
        items[i].image_determines_value();
    }
    assert(back =~= items);
}

/// Packing the elements of a buffer that holds whole elements gives the
/// buffer back.
pub proof fn lemma_pack_of_unpack<T: Plain>(bytes: Seq<u8>)
    requires
        fits::<T>(bytes.len()),
    ensures
        pack(unpack::<T>(bytes)) == bytes,
{
    let w = T::width() as int;
    T::width_is_positive();
    lemma_whole_elements(bytes.len() as int, w);
    let items = unpack::<T>(bytes);
    let again = pack(items);
    assert(again.len() == bytes.len());
    assert forall|k: int| 0 <= k < bytes.len() implies again[k] == bytes[k] by {
        let q = k / w;
        let r = k % w;
        lemma_fundamental_div_mod(k, w);
        lemma_mod_bound(k, w);
        assert(0 <= q < items.len()) by (nonlinear_arith)
            requires
                k == w * q + r,
                0 <= r < w,
                0 <= k < items.len() * w,
        ;
        assert(w * q == q * w) by (nonlinear_arith);
        lemma_chunk_bounds(q, items.len() as int, w);
        T::every_pattern_is_an_image(chunk::<T>(bytes, q));
    }
    assert(again =~= bytes);
}

/// Round trip: decoding what encoding produced succeeds and gives back the
/// elements that were encoded, in number and in value.
pub proof fn lemma_decode_inverts_encode<T: Plain>(items: Seq<T>)
    ensures
        decoded::<T>(pack(items)) == Some(items),
{
    T::width_is_positive();
    lemma_mod_multiples_basic(items.len() as int, T::width() as int);
    lemma_unpack_of_pack(items);
}

/// Encoding what decoding produced gives back the buffer that was decoded,
/// byte for byte.
pub proof fn lemma_encode_inverts_decode<T: Plain>(bytes: Seq<u8>)
    ensures
        decoded::<T>(bytes) matches Some(items) ==> pack(items) == bytes,
{
    if fits::<T>(bytes.len()) {
        lemma_pack_of_unpack::<T>(bytes);
    }
}

/// Decoding succeeds exactly on the buffers whose length is a multiple of the
/// element width, and then gives the quotient of the two as the number of
/// elements.
pub proof fn lemma_decode_iff_divisible<T: Plain>(bytes: Seq<u8>)
    ensures
        decoded::<T>(bytes) is Some <==> bytes.len() % T::width() == 0,
        decoded::<T>(bytes) matches Some(items) ==> items.len() == bytes.len() / T::width(),
{
    T::width_is_positive();
    if fits::<T>(bytes.len()) {
        lemma_whole_elements(bytes.len() as int, T::width() as int);
    }
}

/// Decoding the empty buffer succeeds and gives no elements, whatever the
/// element type.
pub proof fn lemma_decode_empty<T: Plain>()
    ensures
        decoded::<T>(Seq::<u8>::empty()) == Some(Seq::<T>::empty()),
{
    T::width_is_positive();
    let w = T::width() as int;
    assert(0int % w == 0 && 0int / w == 0) by (nonlinear_arith)
        requires
            0 < w,
    ;
    assert(unpack::<T>(Seq::<u8>::empty()) =~= Seq::<T>::empty());
}

/// A buffer that ends in a partial element is rejected: every successful
/// decoding accounts for all bytes of the buffer, none dropped and none added.
pub proof fn lemma_decode_rejects_partial<T: Plain>(bytes: Seq<u8>)
    ensures
        bytes.len() % T::width() != 0 ==> decoded::<T>(bytes) is None,
        decoded::<T>(bytes) matches Some(items) ==> items.len() * T::width() == bytes.len(),
{
    T::width_is_positive();
    if fits::<T>(bytes.len()) {
        lemma_whole_elements(bytes.len() as int, T::width() as int);
    }
}

} // verus!
