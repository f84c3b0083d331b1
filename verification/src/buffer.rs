//! The byte buffers of the `bytes` crate, as the rest of the library uses
//! them: a read cursor (`Bytes`) and a growing output buffer (`BytesMut`).
//!
//! Nothing in this file is proved. Each function makes one call into `bytes`
//! and states, over the two names below, what that call does.

use crate::codec::{be_u16, be_u32, be_u64, u16_bytes, u32_bytes, u64_bytes};
use bytes::{Buf, BufMut, Bytes, BytesMut};
use vstd::prelude::*;

verus! {

/// `bytes::Bytes`, held as an opaque value.
#[verifier::external_type_specification]
#[verifier::external_body]
pub struct ExBytes(bytes::Bytes);

/// `bytes::BytesMut`, held as an opaque value.
#[verifier::external_type_specification]
#[verifier::external_body]
pub struct ExBytesMut(bytes::BytesMut);

/// The bytes that a `Bytes` has yet to hand out, next byte first.
pub uninterp spec fn unread(b: Bytes) -> Seq<u8>;

/// The bytes that a `BytesMut` holds, in the order they were written.
pub uninterp spec fn written(b: BytesMut) -> Seq<u8>;

/// `Bytes::from(Vec<u8>)`: a cursor placed before the first byte of `v`.
#[verifier::external_body]
pub(crate) fn bytes_from_vec(v: Vec<u8>) -> (b: Bytes)
    ensures
        unread(b) == v@,
{
    Bytes::from(v)
}

/// `Buf::has_remaining` on a `Bytes`: whether any byte is left to read.
#[verifier::external_body]
pub(crate) fn has_remaining(b: &Bytes) -> (r: bool)
    ensures
        r == (unread(*b).len() > 0),
{
    b.has_remaining()
}

/// `Buf::get_u8` on a `Bytes`: hands out the next byte and moves past it.
/// The call panics on an empty buffer, hence the `requires`.
#[verifier::external_body]
pub(crate) fn get_u8(b: &mut Bytes) -> (r: u8)
    requires
        unread(*old(b)).len() >= 1,
    ensures
        r == unread(*old(b))[0],
        unread(*final(b)) == unread(*old(b)).skip(1),
{
    b.get_u8()
}

/// `Buf::get_u16` on a `Bytes`: reads the next two bytes as a big-endian
/// value and moves past them. The call panics with fewer than two bytes left.
#[verifier::external_body]
pub(crate) fn get_u16(b: &mut Bytes) -> (r: u16)
    requires
        unread(*old(b)).len() >= 2,
    ensures
        r == be_u16(unread(*old(b)).take(2)),
        unread(*final(b)) == unread(*old(b)).skip(2),
{
    b.get_u16()
}

/// `Buf::get_u32` on a `Bytes`: reads the next four bytes as a big-endian
/// value and moves past them. The call panics with fewer than four bytes left.
#[verifier::external_body]
pub(crate) fn get_u32(b: &mut Bytes) -> (r: u32)
    requires
        unread(*old(b)).len() >= 4,
    ensures
        r == be_u32(unread(*old(b)).take(4)),
        unread(*final(b)) == unread(*old(b)).skip(4),
{
    b.get_u32()
}

/// `Buf::get_u64` on a `Bytes`: reads the next eight bytes as a big-endian
/// value and moves past them. The call panics with fewer than eight bytes
/// left.
#[verifier::external_body]
pub(crate) fn get_u64(b: &mut Bytes) -> (r: u64)
    requires
        unread(*old(b)).len() >= 8,
    ensures
        r == be_u64(unread(*old(b)).take(8)),
        unread(*final(b)) == unread(*old(b)).skip(8),
{
    b.get_u64()
}

/// `Buf::copy_to_slice` on a `Bytes`, into a fresh array: hands out the next
/// `N` bytes and moves past them. The call panics with fewer than `N` bytes
/// left.
#[verifier::external_body]
pub(crate) fn get_array<const N: usize>(b: &mut Bytes) -> (r: [u8; N])
    requires
        unread(*old(b)).len() >= N,
    ensures
        r@ == unread(*old(b)).take(N as int),
        unread(*final(b)) == unread(*old(b)).skip(N as int),
{
    let mut out = [0u8; N];
    b.copy_to_slice(&mut out);
    out
}

/// `BytesMut::with_capacity`: an empty buffer. The capacity is a hint only;
/// the allocation behind it fails above `isize::MAX` bytes.
#[verifier::external_body]
pub(crate) fn with_capacity(capacity: usize) -> (b: BytesMut)
    requires
        capacity <= isize::MAX,
    ensures
        written(b) == Seq::<u8>::empty(),
{
    BytesMut::with_capacity(capacity)
}

/// `BufMut::put_u8` on a `BytesMut`: appends one byte. The buffer grows as
/// needed, up to `isize::MAX` bytes.
#[verifier::external_body]
pub(crate) fn put_u8(b: &mut BytesMut, n: u8)
    requires
        written(*old(b)).len() + 1 <= isize::MAX,
    ensures
        written(*final(b)) == written(*old(b)).push(n),
{
    b.put_u8(n)
}

/// `BufMut::put_u16` on a `BytesMut`: appends the two big-endian bytes of
/// `n`.
#[verifier::external_body]
pub(crate) fn put_u16(b: &mut BytesMut, n: u16)
    requires
        written(*old(b)).len() + 2 <= isize::MAX,
    ensures
        written(*final(b)) == written(*old(b)) + u16_bytes(n),
{
    b.put_u16(n)
}

/// `BufMut::put_u32` on a `BytesMut`: appends the four big-endian bytes of
/// `n`.
#[verifier::external_body]
pub(crate) fn put_u32(b: &mut BytesMut, n: u32)
    requires
        written(*old(b)).len() + 4 <= isize::MAX,
    ensures
        written(*final(b)) == written(*old(b)) + u32_bytes(n),
{
    b.put_u32(n)
}

/// `BufMut::put_u64` on a `BytesMut`: appends the eight big-endian bytes of
/// `n`.
#[verifier::external_body]
pub(crate) fn put_u64(b: &mut BytesMut, n: u64)
    requires
        written(*old(b)).len() + 8 <= isize::MAX,
    ensures
        written(*final(b)) == written(*old(b)) + u64_bytes(n),
{
    b.put_u64(n)
}

/// `BufMut::put_slice` on a `BytesMut`: appends the bytes of `src`.
#[verifier::external_body]
pub(crate) fn put_slice(b: &mut BytesMut, src: &[u8])
    requires
        written(*old(b)).len() + src@.len() <= isize::MAX,
    ensures
        written(*final(b)) == written(*old(b)) + src@,
{
    b.put_slice(src)
}

/// `to_vec` on the bytes of a `BytesMut`: a copy of what the buffer holds.
#[verifier::external_body]
pub(crate) fn into_vec(b: &BytesMut) -> (v: Vec<u8>)
    ensures
        v@ == written(*b),
{
    b.to_vec()
}

} // verus!
