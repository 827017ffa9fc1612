//! The byte buffer that the codecs read frames from and write frames to:
//! `bytes::BytesMut`, seen through the sequence of bytes it holds.

use bytes::{BufMut, BytesMut};
use vstd::prelude::*;

use crate::crc::be_bytes;

verus! {

#[verifier::external_type_specification]
#[verifier::external_body]
pub struct ExBytesMut(BytesMut);

/// The bytes that a `BytesMut` holds, in order.
pub uninterp spec fn bytes_mut_content(buf: BytesMut) -> Seq<u8>;

/// The largest number of bytes a `BytesMut` can hold (its
/// `remaining_mut` is `isize::MAX` less its length).
pub open spec fn buf_limit() -> int {
    isize::MAX as int
}

/// `BytesMut::reserve`: makes room for `additional` more bytes. Claimed:
/// the bytes held do not change. It panics when the new capacity
/// overflows, which the bound in `requires` rules out.
#[verifier::external_body]
pub(crate) fn buf_reserve(buf: &mut BytesMut, additional: usize)
    requires
        bytes_mut_content(*old(buf)).len() + additional <= buf_limit(),
    ensures
        bytes_mut_content(*final(buf)) == bytes_mut_content(*old(buf)),
{
    buf.reserve(additional)
}

/// `BufMut::put_u8` on a `BytesMut`: claimed to append the byte `n`.
#[verifier::external_body]
pub(crate) fn buf_put_u8(buf: &mut BytesMut, n: u8)
    requires
        bytes_mut_content(*old(buf)).len() + 1 <= buf_limit(),
    ensures
        bytes_mut_content(*final(buf)) == bytes_mut_content(*old(buf)).push(n),
{
    buf.put_u8(n)
}

/// `BufMut::put_u16` on a `BytesMut`: claimed to append the two bytes of
/// `n`, high byte first (`n.to_be_bytes()`).
#[verifier::external_body]
pub(crate) fn buf_put_u16(buf: &mut BytesMut, n: u16)
    requires
        bytes_mut_content(*old(buf)).len() + 2 <= buf_limit(),
    ensures
        bytes_mut_content(*final(buf)) == bytes_mut_content(*old(buf)) + be_bytes(n),
{
    buf.put_u16(n)
}

/// `BufMut::put_slice` on a `BytesMut`: claimed to append the bytes of
/// `src`, in order.
#[verifier::external_body]
pub(crate) fn buf_put_slice(buf: &mut BytesMut, src: &[u8])
    requires
        bytes_mut_content(*old(buf)).len() + src@.len() <= buf_limit(),
    ensures
        bytes_mut_content(*final(buf)) == bytes_mut_content(*old(buf)) + src@,
{
    buf.put_slice(src)
}

/// `BytesMut::clear`: claimed to leave no bytes in the buffer.
#[verifier::external_body]
pub(crate) fn buf_clear(buf: &mut BytesMut)
    ensures
        bytes_mut_content(*final(buf)) == Seq::<u8>::empty(),
{
    buf.clear()
}

/// `BytesMut::len`: claimed to be the number of bytes held.
#[verifier::external_body]
pub(crate) fn buf_len(buf: &BytesMut) -> (r: usize)
    ensures
        r == bytes_mut_content(*buf).len(),
{
    buf.len()
}

/// `BytesMut` as a slice (`AsRef<[u8]>`): claimed to be exactly the
/// bytes held.
#[verifier::external_body]
pub(crate) fn buf_as_slice(buf: &BytesMut) -> (r: &[u8])
    ensures
        r@ == bytes_mut_content(*buf),
{
    buf.as_ref()
}

} // verus!
