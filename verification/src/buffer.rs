//! Byte buffers: `bytes::BytesMut` as the verifier sees it.
//!
//! The buffer type is opaque to the verifier. `buf_bytes` names the bytes a
//! buffer holds, and each function below states what one method of the buffer
//! does to them. None of these statements is proved here.
//!
//! A buffer grows as bytes are appended. That memory can run out is not part
//! of what is stated, here as for `Vec` in vstd.

use bytes::{Buf, BufMut, BytesMut};
use vstd::prelude::*;

verus! {

/// `bytes::BytesMut`, which the verifier knows by name only.
#[verifier::external_type_specification]
#[verifier::external_body]
pub struct ExBytesMut(BytesMut);

/// The bytes that a buffer holds, first to last.
pub uninterp spec fn buf_bytes(b: BytesMut) -> Seq<u8>;

/// `BytesMut::new`: a buffer that holds no bytes.
#[verifier::external_body]
pub(crate) fn buf_new() -> (b: BytesMut)
    ensures
        buf_bytes(b) == Seq::<u8>::empty(),
{
    BytesMut::new()
}

/// `BytesMut::len`: the number of bytes held.
#[verifier::external_body]
pub(crate) fn buf_len(b: &BytesMut) -> (n: usize)
    ensures
        n == buf_bytes(*b).len(),
{
    b.len()
}

/// `BytesMut::as_ref`: the held bytes as a slice, unchanged.
#[verifier::external_body]
pub(crate) fn buf_as_slice(b: &BytesMut) -> (s: &[u8])
    ensures
        s@ == buf_bytes(*b),
{
    b.as_ref()
}

/// `Buf::advance` on `BytesMut`: drops the first `cnt` bytes. The method
/// panics when `cnt` exceeds the length, which the precondition excludes.
#[verifier::external_body]
pub(crate) fn buf_advance(b: &mut BytesMut, cnt: usize)
    requires
        cnt <= buf_bytes(*old(b)).len(),
    ensures
        buf_bytes(*final(b)) == buf_bytes(*old(b)).skip(cnt as int),
{
    b.advance(cnt)
}

/// `BytesMut::split_to`: hands out the first `at` bytes and keeps the rest.
/// The method panics when `at` exceeds the length, which the precondition
/// excludes.
#[verifier::external_body]
pub(crate) fn buf_split_to(b: &mut BytesMut, at: usize) -> (head: BytesMut)
    requires
        at <= buf_bytes(*old(b)).len(),
    ensures
        buf_bytes(head) == buf_bytes(*old(b)).take(at as int),
        buf_bytes(*final(b)) == buf_bytes(*old(b)).skip(at as int),
{
    b.split_to(at)
}

/// `BytesMut::extend_from_slice`: appends the slice.
#[verifier::external_body]
pub(crate) fn buf_extend_from_slice(b: &mut BytesMut, extend: &[u8])
    ensures
        buf_bytes(*final(b)) == buf_bytes(*old(b)) + extend@,
{
    b.extend_from_slice(extend)
}

/// `BufMut::put_u8` on `BytesMut`: appends one byte.
#[verifier::external_body]
pub(crate) fn buf_put_u8(b: &mut BytesMut, n: u8)
    ensures
        buf_bytes(*final(b)) == buf_bytes(*old(b)).push(n),
{
    b.put_u8(n)
}

/// The two bytes of `v`, most significant first.
pub open spec fn u16_be(v: u16) -> Seq<u8> {
    seq![(v / 0x100) as u8, (v % 0x100) as u8]
}

/// The four bytes of `v`, most significant first.
pub open spec fn u32_be(v: u32) -> Seq<u8> {
    seq![
        (v / 0x100_0000) as u8,
        ((v / 0x1_0000) % 0x100) as u8,
        ((v / 0x100) % 0x100) as u8,
        (v % 0x100) as u8,
    ]
}

/// The eight bytes of `v`, most significant first.
pub open spec fn u64_be(v: u64) -> Seq<u8> {
    u32_be((v / 0x1_0000_0000) as u32) + u32_be((v % 0x1_0000_0000) as u32)
}

/// `BufMut::put_u16` on `BytesMut`: appends `n` in big-endian byte order.
#[verifier::external_body]
pub(crate) fn buf_put_u16(b: &mut BytesMut, n: u16)
    ensures
        buf_bytes(*final(b)) == buf_bytes(*old(b)) + u16_be(n),
{
    b.put_u16(n)
}

/// `BufMut::put_u32` on `BytesMut`: appends `n` in big-endian byte order.
#[verifier::external_body]
pub(crate) fn buf_put_u32(b: &mut BytesMut, n: u32)
    ensures
        buf_bytes(*final(b)) == buf_bytes(*old(b)) + u32_be(n),
{
    b.put_u32(n)
}

/// `BufMut::put_u64` on `BytesMut`: appends `n` in big-endian byte order.
#[verifier::external_body]
pub(crate) fn buf_put_u64(b: &mut BytesMut, n: u64)
    ensures
        buf_bytes(*final(b)) == buf_bytes(*old(b)) + u64_be(n),
{
    b.put_u64(n)
}

} // verus!
