//! The byte buffer of the `bytes` crate, as far as the packet buffer and the
//! frame codec use it.
//!
//! `BytesMut` is opaque to the verifier. Its contents are named by
//! [`buffer_bytes`], and each method that the library calls is wrapped in a
//! function whose contract says, over that name, what the method does. The
//! contracts are taken from the crate's source and are not proved here.
//! As with `Vec::push`, a write that fails because memory has run out is
//! outside what they cover.

use vstd::prelude::*;
use bytes::{Buf, BufMut, BytesMut};
use crate::wire::{
    be_bytes, be_value, signed16, signed32, signed64, signed8, unsigned16, unsigned32, unsigned64,
    unsigned8,
};

verus! {

#[verifier::external_type_specification]
#[verifier::external_body]
pub struct ExBytesMut(bytes::BytesMut);

/// The bytes that a buffer holds, front first.
pub uninterp spec fn buffer_bytes(b: BytesMut) -> Seq<u8>;

/// `BytesMut::new`: a buffer that holds nothing.
#[verifier::external_body]
pub(crate) fn buffer_new() -> (b: BytesMut)
    ensures
        buffer_bytes(b) == Seq::<u8>::empty(),
{
    BytesMut::new()
}

/// `BytesMut::len`: the number of bytes held.
#[verifier::external_body]
pub(crate) fn buffer_len(b: &BytesMut) -> (n: usize)
    ensures
        n == buffer_bytes(*b).len(),
{
    b.len()
}

/// `AsRef<[u8]>::as_ref` on `BytesMut`: the held bytes as a slice.
#[verifier::external_body]
pub(crate) fn buffer_slice(b: &BytesMut) -> (s: &[u8])
    ensures
        s@ == buffer_bytes(*b),
{
    b.as_ref()
}

/// `Buf::advance` on `BytesMut`: drops the first `n` bytes. The method
/// panics when fewer than `n` bytes are held.
#[verifier::external_body]
pub(crate) fn buffer_advance(b: &mut BytesMut, n: usize)
    requires
        n <= buffer_bytes(*old(b)).len(),
    ensures
        buffer_bytes(*final(b)) == buffer_bytes(*old(b)).skip(n as int),
{
    b.advance(n)
}

/// `BytesMut::extend_from_slice`: appends the bytes of `data`.
#[verifier::external_body]
pub(crate) fn buffer_extend(b: &mut BytesMut, data: &[u8])
    ensures
        buffer_bytes(*final(b)) == buffer_bytes(*old(b)) + data@,
{
    b.extend_from_slice(data)
}

/// `Buf::get_u8` on `BytesMut`: takes the first byte. The method panics
/// when nothing is held.
#[verifier::external_body]
pub(crate) fn buffer_get_u8(b: &mut BytesMut) -> (v: u8)
    requires
        1 <= buffer_bytes(*old(b)).len(),
    ensures
        v == buffer_bytes(*old(b))[0],
        buffer_bytes(*final(b)) == buffer_bytes(*old(b)).skip(1),
{
    b.get_u8()
}

/// `Buf::get_i8` on `BytesMut`: takes the first byte as a signed value.
/// The method panics when nothing is held.
#[verifier::external_body]
pub(crate) fn buffer_get_i8(b: &mut BytesMut) -> (v: i8)
    requires
        1 <= buffer_bytes(*old(b)).len(),
    ensures
        v == signed8(buffer_bytes(*old(b))[0] as nat),
        buffer_bytes(*final(b)) == buffer_bytes(*old(b)).skip(1),
{
    b.get_i8()
}

/// `Buf::get_u16` on `BytesMut`: takes two bytes as a big-endian number.
/// The method panics when fewer than two bytes are held.
#[verifier::external_body]
pub(crate) fn buffer_get_u16(b: &mut BytesMut) -> (v: u16)
    requires
        2 <= buffer_bytes(*old(b)).len(),
    ensures
        v == be_value(buffer_bytes(*old(b)).take(2)),
        buffer_bytes(*final(b)) == buffer_bytes(*old(b)).skip(2),
{
    b.get_u16()
}

/// `Buf::get_i16` on `BytesMut`: takes two bytes as a big-endian signed
/// number. The method panics when fewer than two bytes are held.
#[verifier::external_body]
pub(crate) fn buffer_get_i16(b: &mut BytesMut) -> (v: i16)
    requires
        2 <= buffer_bytes(*old(b)).len(),
    ensures
        v == signed16(be_value(buffer_bytes(*old(b)).take(2))),
        buffer_bytes(*final(b)) == buffer_bytes(*old(b)).skip(2),
{
    b.get_i16()
}

/// `Buf::get_i32` on `BytesMut`: takes four bytes as a big-endian signed
/// number. The method panics when fewer than four bytes are held.
#[verifier::external_body]
pub(crate) fn buffer_get_i32(b: &mut BytesMut) -> (v: i32)
    requires
        4 <= buffer_bytes(*old(b)).len(),
    ensures
        v == signed32(be_value(buffer_bytes(*old(b)).take(4))),
        buffer_bytes(*final(b)) == buffer_bytes(*old(b)).skip(4),
{
    b.get_i32()
}

/// `Buf::get_i64` on `BytesMut`: takes eight bytes as a big-endian signed
/// number. The method panics when fewer than eight bytes are held.
#[verifier::external_body]
pub(crate) fn buffer_get_i64(b: &mut BytesMut) -> (v: i64)
    requires
        8 <= buffer_bytes(*old(b)).len(),
    ensures
        v == signed64(be_value(buffer_bytes(*old(b)).take(8))),
        buffer_bytes(*final(b)) == buffer_bytes(*old(b)).skip(8),
{
    b.get_i64()
}

/// `BufMut::put_u8` on `BytesMut`: appends one byte.
#[verifier::external_body]
pub(crate) fn buffer_put_u8(b: &mut BytesMut, v: u8)
    ensures
        buffer_bytes(*final(b)) == buffer_bytes(*old(b)).push(v),
{
    b.put_u8(v)
}

/// `BufMut::put_i8` on `BytesMut`: appends the bit pattern of a signed
/// byte.
#[verifier::external_body]
pub(crate) fn buffer_put_i8(b: &mut BytesMut, v: i8)
    ensures
        buffer_bytes(*final(b)) == buffer_bytes(*old(b)).push(unsigned8(v) as u8),
{
    b.put_i8(v)
}

/// `BufMut::put_u16` on `BytesMut`: appends two bytes, big-endian.
#[verifier::external_body]
pub(crate) fn buffer_put_u16(b: &mut BytesMut, v: u16)
    ensures
        buffer_bytes(*final(b)) == buffer_bytes(*old(b)) + be_bytes(v as nat, 2),
{
    b.put_u16(v)
}

/// `BufMut::put_i16` on `BytesMut`: appends the two bytes of the bit
/// pattern, big-endian.
#[verifier::external_body]
pub(crate) fn buffer_put_i16(b: &mut BytesMut, v: i16)
    ensures
        buffer_bytes(*final(b)) == buffer_bytes(*old(b)) + be_bytes(unsigned16(v), 2),
{
    b.put_i16(v)
}

/// `BufMut::put_i32` on `BytesMut`: appends the four bytes of the bit
/// pattern, big-endian.
#[verifier::external_body]
pub(crate) fn buffer_put_i32(b: &mut BytesMut, v: i32)
    ensures
        buffer_bytes(*final(b)) == buffer_bytes(*old(b)) + be_bytes(unsigned32(v), 4),
{
    b.put_i32(v)
}

/// `BufMut::put_i64` on `BytesMut`: appends the eight bytes of the bit
/// pattern, big-endian.
#[verifier::external_body]
pub(crate) fn buffer_put_i64(b: &mut BytesMut, v: i64)
    ensures
        buffer_bytes(*final(b)) == buffer_bytes(*old(b)) + be_bytes(unsigned64(v), 8),
{
    b.put_i64(v)
}

} // verus!
