//! Byte buffers from the `bytes` crate, as the broker's frames use them.
//!
//! `Bytes` and `BytesMut` stay opaque to the verifier; what a buffer holds is
//! named by `bytes_view` and `bytes_mut_view`, and each method the library
//! calls has a contract over those names.

use vstd::prelude::*;
use bytes::{Buf, BufMut, Bytes, BytesMut};

verus! {

#[verifier::external_type_specification]
#[verifier::external_body]
pub struct ExBytes(bytes::Bytes);

#[verifier::external_type_specification]
#[verifier::external_body]
pub struct ExBytesMut(bytes::BytesMut);

/// The bytes an immutable buffer holds.
pub uninterp spec fn bytes_view(b: Bytes) -> Seq<u8>;

/// The bytes a growable buffer holds.
pub uninterp spec fn bytes_mut_view(b: BytesMut) -> Seq<u8>;

/// `Bytes::from(Vec<u8>)`: the buffer holds exactly the vector's bytes.
#[verifier::external_body]
pub(crate) fn bytes_from_vec(v: Vec<u8>) -> (b: Bytes)
    ensures
        bytes_view(b) == v@,
{
    Bytes::from(v)
}

/// `Bytes::new()`: an empty buffer.
#[verifier::external_body]
pub(crate) fn bytes_empty() -> (b: Bytes)
    ensures
        bytes_view(b) == Seq::<u8>::empty(),
{
    Bytes::new()
}

/// `<Bytes as Deref>::deref`: the slice of the bytes the buffer holds.
#[verifier::external_body]
pub(crate) fn bytes_as_slice(b: &Bytes) -> (s: &[u8])
    ensures
        s@ == bytes_view(*b),
{
    b
}

/// `Bytes::clone`: a handle to the same bytes.
pub assume_specification[ <bytes::Bytes as core::clone::Clone>::clone ](b: &bytes::Bytes) -> (c: bytes::Bytes)
    ensures
        bytes_view(c) == bytes_view(*b),
;

/// `BytesMut::with_capacity`: an empty buffer (the capacity only reserves room).
#[verifier::external_body]
pub(crate) fn bytes_mut_with_capacity(cap: usize) -> (b: BytesMut)
    ensures
        bytes_mut_view(b) == Seq::<u8>::empty(),
{
    BytesMut::with_capacity(cap)
}

/// `BytesMut::clear`: the buffer becomes empty.
#[verifier::external_body]
pub(crate) fn bytes_mut_clear(b: &mut BytesMut)
    ensures
        bytes_mut_view(*final(b)) == Seq::<u8>::empty(),
{
    b.clear()
}

/// `BufMut::put_slice` on a `BytesMut`: the slice is appended. It panics only
/// when the length would exceed what the buffer can address, which
/// `requires` rules out.
#[verifier::external_body]
pub(crate) fn bytes_mut_put_slice(b: &mut BytesMut, src: &[u8])
    requires
        bytes_mut_view(*old(b)).len() + src@.len() <= isize::MAX,
    ensures
        bytes_mut_view(*final(b)) == bytes_mut_view(*old(b)) + src@,
{
    b.put_slice(src)
}

/// `BytesMut::extend_from_slice`: the slice is appended.
#[verifier::external_body]
pub(crate) fn bytes_mut_extend_from_slice(b: &mut BytesMut, src: &[u8])
    requires
        bytes_mut_view(*old(b)).len() + src@.len() <= isize::MAX,
    ensures
        bytes_mut_view(*final(b)) == bytes_mut_view(*old(b)) + src@,
{
    b.extend_from_slice(src)
}

/// `BytesMut::split`: everything moves to the returned buffer and `b` is left
/// empty.
#[verifier::external_body]
pub(crate) fn bytes_mut_split(b: &mut BytesMut) -> (front: BytesMut)
    ensures
        bytes_mut_view(front) == bytes_mut_view(*old(b)),
        bytes_mut_view(*final(b)) == Seq::<u8>::empty(),
{
    b.split()
}

/// `BytesMut::split_to`: the first `at` bytes move to the returned buffer.
/// It panics when `at` exceeds the length, which `requires` rules out.
#[verifier::external_body]
pub(crate) fn bytes_mut_split_to(b: &mut BytesMut, at: usize) -> (front: BytesMut)
    requires
        at <= bytes_mut_view(*old(b)).len(),
    ensures
        bytes_mut_view(front) == bytes_mut_view(*old(b)).subrange(0, at as int),
        bytes_mut_view(*final(b)) == bytes_mut_view(*old(b)).subrange(
            at as int,
            bytes_mut_view(*old(b)).len() as int,
        ),
{
    b.split_to(at)
}

/// `Buf::advance` on a `BytesMut`: the first `cnt` bytes are dropped. It
/// panics when `cnt` exceeds the length, which `requires` rules out.
#[verifier::external_body]
pub(crate) fn bytes_mut_advance(b: &mut BytesMut, cnt: usize)
    requires
        cnt <= bytes_mut_view(*old(b)).len(),
    ensures
        bytes_mut_view(*final(b)) == bytes_mut_view(*old(b)).subrange(
            cnt as int,
            bytes_mut_view(*old(b)).len() as int,
        ),
{
    b.advance(cnt)
}

/// `BytesMut::freeze`: an immutable buffer with the same bytes.
#[verifier::external_body]
pub(crate) fn bytes_mut_freeze(b: BytesMut) -> (f: Bytes)
    ensures
        bytes_view(f) == bytes_mut_view(b),
{
    b.freeze()
}

/// `<BytesMut as Deref>::deref`: the slice of the bytes the buffer holds.
#[verifier::external_body]
pub(crate) fn bytes_mut_as_slice(b: &BytesMut) -> (s: &[u8])
    ensures
        s@ == bytes_mut_view(*b),
{
    b
}

} // verus!
