//! The byte buffers of the `bytes` crate, as the frame relay uses them.
//!
//! Each buffer is viewed as the sequence of bytes it holds; the wrappers
//! below state what each call does to that sequence.

use vstd::prelude::*;
use bytes::{BufMut, Bytes, BytesMut};

verus! {

/// `bytes::Bytes`, an immutable, cheaply cloned byte buffer.
#[verifier::external_type_specification]
#[verifier::external_body]
pub struct ExBytes(Bytes);

/// `bytes::BytesMut`, a growable byte buffer.
#[verifier::external_type_specification]
#[verifier::external_body]
pub struct ExBytesMut(BytesMut);

/// The bytes that a `Bytes` holds, in order.
pub uninterp spec fn bytes_view(b: Bytes) -> Seq<u8>;

/// The bytes that a `BytesMut` holds, in order.
pub uninterp spec fn bytes_mut_view(b: BytesMut) -> Seq<u8>;

/// Calls `BytesMut::new`, which returns a buffer that holds no bytes.
#[verifier::external_body]
pub(crate) fn bytes_mut_new() -> (b: BytesMut)
    ensures
        bytes_mut_view(b) == Seq::<u8>::empty(),
{
    BytesMut::new()
}

/// Calls `BytesMut::len`, the number of bytes the buffer holds.
#[verifier::external_body]
pub(crate) fn bytes_mut_len(b: &BytesMut) -> (n: usize)
    ensures
        n == bytes_mut_view(*b).len(),
{
    b.len()
}

/// Calls `Bytes::len`, the number of bytes held.
#[verifier::external_body]
pub(crate) fn bytes_len(b: &Bytes) -> (n: usize)
    ensures
        n == bytes_view(*b).len(),
{
    b.len()
}

/// Calls `BufMut::put` of `BytesMut` with a `Bytes`: the bytes of `src`
/// are appended after those already held. The buffer's `reserve` panics
/// when the new length would pass `isize::MAX`; that input is left out.
#[verifier::external_body]
pub(crate) fn bytes_mut_put(b: &mut BytesMut, src: Bytes)
    requires
        bytes_mut_view(*old(b)).len() + bytes_view(src).len() <= isize::MAX,
    ensures
        bytes_mut_view(*final(b)) == bytes_mut_view(*old(b)) + bytes_view(src),
{
    b.put(src)
}

/// Calls `Clone::clone` of `BytesMut`, which copies the bytes held.
#[verifier::external_body]
pub(crate) fn bytes_mut_clone(b: &BytesMut) -> (c: BytesMut)
    ensures
        bytes_mut_view(c) == bytes_mut_view(*b),
{
    b.clone()
}

/// Calls `From<BytesMut> for Bytes`, which freezes the buffer without
/// changing the bytes it holds.
#[verifier::external_body]
pub(crate) fn bytes_from_mut(b: BytesMut) -> (f: Bytes)
    ensures
        bytes_view(f) == bytes_mut_view(b),
{
    Bytes::from(b)
}

/// Calls `BytesMut::clear`, after which the buffer holds no bytes.
#[verifier::external_body]
pub(crate) fn bytes_mut_clear(b: &mut BytesMut)
    ensures
        bytes_mut_view(*final(b)) == Seq::<u8>::empty(),
{
    b.clear()
}

} // verus!
