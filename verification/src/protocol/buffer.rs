//! `bytes::BytesMut`, the buffer that bytes are read into and messages are built in.
//!
//! Every item here is trusted: the contracts restate what the `bytes` crate does with the
//! contents of a buffer. Running out of memory is not modelled.

use bytes::{Buf, BufMut, BytesMut};
use vstd::prelude::*;

use super::messages::{be_i32, i32_bytes};

verus! {

/// The byte buffer of the `bytes` crate, opaque but for [`bytes_of`].
#[verifier::external_type_specification]
#[verifier::external_body]
pub struct ExBytesMut(BytesMut);

/// The bytes that a buffer holds, first byte first.
pub uninterp spec fn bytes_of(buf: BytesMut) -> Seq<u8>;

/// `BytesMut::new`: the buffer starts empty.
#[verifier::external_body]
pub(crate) fn new_buffer() -> (buf: BytesMut)
    ensures
        bytes_of(buf) == Seq::<u8>::empty(),
{
    BytesMut::new()
}

/// `BytesMut`'s `Deref` to a slice: the slice shows the buffer's bytes.
#[verifier::external_body]
pub(crate) fn as_slice(buf: &BytesMut) -> (bytes: &[u8])
    ensures
        bytes@ == bytes_of(*buf),
{
    buf
}

/// `BufMut::put_u8` on a `BytesMut`: one byte is appended.
#[verifier::external_body]
pub(crate) fn put_u8(buf: &mut BytesMut, value: u8)
    ensures
        bytes_of(*final(buf)) == bytes_of(*old(buf)).push(value),
{
    buf.put_u8(value)
}

/// `BufMut::put_i32` on a `BytesMut`: the four bytes of the number, most significant first,
/// are appended.
#[verifier::external_body]
pub(crate) fn put_i32(buf: &mut BytesMut, value: i32)
    ensures
        bytes_of(*final(buf)) == bytes_of(*old(buf)) + i32_bytes(value as int),
{
    buf.put_i32(value)
}

/// `BytesMut::extend_from_slice`: the slice is appended.
#[verifier::external_body]
pub(crate) fn extend_from_slice(buf: &mut BytesMut, bytes: &[u8])
    ensures
        bytes_of(*final(buf)) == bytes_of(*old(buf)) + bytes@,
{
    buf.extend_from_slice(bytes)
}

/// `Buf::advance` on a `BytesMut`: the first `count` bytes are dropped. It panics when there
/// are fewer.
#[verifier::external_body]
pub(crate) fn advance(buf: &mut BytesMut, count: usize)
    requires
        count <= bytes_of(*old(buf)).len(),
    ensures
        bytes_of(*final(buf)) == bytes_of(*old(buf)).skip(count as int),
{
    buf.advance(count)
}

/// `Buf::get_i32` on a slice: the first four bytes, read as a signed number, most significant
/// byte first. It panics on a shorter slice.
#[verifier::external_body]
pub(crate) fn get_i32(bytes: &[u8]) -> (value: i32)
    requires
        bytes@.len() >= 4,
    ensures
        value as int == be_i32(bytes@),
{
    let mut bytes: &[u8] = bytes;
    bytes.get_i32()
}

} // verus!
