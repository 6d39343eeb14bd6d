//! The packet buffer: typed reads from the front of a growable byte buffer
//! and typed writes to its end.
//!
//! The buffer is the read cursor: a read that succeeds takes its bytes off
//! the front, a read that fails leaves everything where it was. Multi-byte
//! integers travel in network byte order.

use vstd::prelude::*;
use bytes::BytesMut;
use crate::buffer::{
    buffer_advance, buffer_bytes, buffer_extend, buffer_get_i16, buffer_get_i32, buffer_get_i64,
    buffer_get_i8, buffer_get_u16, buffer_get_u8, buffer_len, buffer_new, buffer_put_i16,
    buffer_put_i32, buffer_put_i64, buffer_put_i8, buffer_put_u16, buffer_put_u8, buffer_slice,
};
use crate::error::ProtocolError;
use crate::text::{hex_text, parse_uuid, string_from_utf8, to_hex, uuid_bytes};
use crate::varint::{
    decode, decode_long, encode, encode_long, lemma_varint_round_trip, varint_bytes,
    varint_decode, varlong_bytes, varlong_decode, VarInt,
};
use vstd::slice::{slice_subrange, slice_to_vec};
use vstd::utf8::{decode_utf8, encode_utf8, valid_utf8};
use crate::wire::{
    be_bytes, be_value, bool_bytes, byte_bytes, int_bytes, lemma_be_value_bound,
    lemma_byte_capacity_values, long_bytes, pattern32, pattern64, short_bytes, signed16, signed32,
    signed64, signed8, value32, value64,
};

verus! {

/// The error of a field read inside a packet. Running out of bytes in the
/// middle of a field is an underflow there; every other error stays as it
/// is.
pub open spec fn field_error(e: ProtocolError) -> ProtocolError {
    if e is Incomplete {
        ProtocolError::BufferUnderflow
    } else {
        e
    }
}

/// A string field at the front of `bytes`: the text and the number of bytes
/// the field takes, or why there is none. The field is a length in bytes,
/// as a variable-length integer, and then that many bytes of UTF-8.
pub open spec fn string_field(bytes: Seq<u8>) -> Result<(Seq<char>, nat), ProtocolError> {
    match varint_decode(bytes) {
        Err(e) => Err(field_error(e)),
        Ok(header) => {
            if header.value < 0 || bytes.len() - header.len < header.value {
                Err(ProtocolError::BufferUnderflow)
            } else {
                let body = bytes.subrange(header.len as int, header.len + header.value);
                if valid_utf8(body) {
                    Ok((decode_utf8(body), (header.len + header.value) as nat))
                } else {
                    Err(ProtocolError::InvalidEncoding)
                }
            }
        },
    }
}

/// The bytes of a string field that holds `text`.
pub open spec fn string_field_bytes(text: Seq<char>) -> Seq<u8> {
    varint_bytes(encode_utf8(text).len() as i32) + encode_utf8(text)
}

/// A frame on the wire: the length of what follows, the packet type, and
/// the payload. The length counts the bytes of the type and of the payload.
pub open spec fn frame_bytes(id: i32, payload: Seq<u8>) -> Seq<u8> {
    varint_bytes((varint_bytes(id).len() + payload.len()) as i32) + varint_bytes(id) + payload
}

/// Whether a frame of type `id` with this payload fits its own length
/// prefix, which is a 32-bit value.
pub open spec fn frame_fits(id: i32, payload: Seq<u8>) -> bool {
    varint_bytes(id).len() + payload.len() <= i32::MAX
}

/// A string field that was written is read back as the same text, whatever
/// follows it, and takes as many bytes as were written.
pub proof fn lemma_string_field_round_trip(text: Seq<char>, rest: Seq<u8>)
    requires
        encode_utf8(text).len() <= i32::MAX,
    ensures
        string_field(string_field_bytes(text) + rest) == Ok::<(Seq<char>, nat), ProtocolError>(
            (text, string_field_bytes(text).len()),
        ),
{
    let body = encode_utf8(text);
    let length = body.len() as i32;
    let bytes = string_field_bytes(text) + rest;
    lemma_varint_round_trip(length, body + rest);
    assert(bytes =~= varint_bytes(length) + (body + rest));
    let width = varint_bytes(length).len();
    assert(bytes.subrange(width as int, width + length) =~= body);
    vstd::utf8::encode_utf8_valid_utf8(text);
    vstd::utf8::encode_utf8_decode_utf8(text);
}

/// A byte buffer with typed accessors, and a running position that
/// [`PacketManager::add_offset`] and the bulk appends advance.
pub struct PacketManager {
    buffer: BytesMut,
    offset: usize,
}

impl View for PacketManager {
    type V = Seq<u8>;

    /// The bytes that are still to be read, front first.
    closed spec fn view(&self) -> Seq<u8> {
        buffer_bytes(self.buffer)
    }
}

impl PacketManager {
    /// The running position.
    pub closed spec fn position(&self) -> usize {
        self.offset
    }

    /// What a read of `width` bytes does to the buffer when it succeeds:
    /// the bytes leave the front, the position stays.
    pub open spec fn consumed(before: Self, after: Self, width: nat) -> bool {
        &&& width <= before@.len()
        &&& after@ == before@.skip(width as int)
        &&& after.position() == before.position()
    }

    /// What a write does to the buffer: the bytes join the end, the
    /// position stays.
    pub open spec fn appended(before: Self, after: Self, bytes: Seq<u8>) -> bool {
        &&& after@ == before@ + bytes
        &&& after.position() == before.position()
    }

    /// A packet buffer over `buffer`, with the running position at `offset`.
    pub fn new(buffer: BytesMut, offset: usize) -> (r: Self)
        ensures
            r@ == buffer_bytes(buffer),
            r.position() == offset,
    {
        PacketManager { buffer, offset }
    }

    /// Whether at least `required` bytes are still to be read.
    pub fn ensure_available_bytes(&self, required: usize) -> (r: bool)
        ensures
            r == (required <= self@.len()),
    {
        buffer_len(&self.buffer) >= required
    }

    /// Reads one byte as a truth value: zero is false, anything else true.
    pub fn read_boolean(&mut self) -> (r: Result<bool, ProtocolError>)
        ensures
            match r {
                Ok(v) => Self::consumed(*old(self), *final(self), 1) && v == (old(self)@[0] != 0),
                Err(e) => e == ProtocolError::BufferUnderflow && old(self)@.len() < 1
                    && *final(self) == *old(self),
            },
    {
        if !self.ensure_available_bytes(1) {
            return Err(ProtocolError::BufferUnderflow);
        }
        let b: u8 = buffer_get_u8(&mut self.buffer);
        Ok(b != 0)
    }

    /// Reads one signed byte.
    pub fn read_byte(&mut self) -> (r: Result<i8, ProtocolError>)
        ensures
            match r {
                Ok(v) => Self::consumed(*old(self), *final(self), 1) && v == signed8(
                    old(self)@[0] as nat,
                ),
                Err(e) => e == ProtocolError::BufferUnderflow && old(self)@.len() < 1
                    && *final(self) == *old(self),
            },
    {
        if !self.ensure_available_bytes(1) {
            return Err(ProtocolError::BufferUnderflow);
        }
        Ok(buffer_get_i8(&mut self.buffer))
    }

    /// Reads one unsigned byte.
    pub fn read_unsigned_byte(&mut self) -> (r: Result<u8, ProtocolError>)
        ensures
            match r {
                Ok(v) => Self::consumed(*old(self), *final(self), 1) && v == old(self)@[0],
                Err(e) => e == ProtocolError::BufferUnderflow && old(self)@.len() < 1
                    && *final(self) == *old(self),
            },
    {
        if !self.ensure_available_bytes(1) {
            return Err(ProtocolError::BufferUnderflow);
        }
        Ok(buffer_get_u8(&mut self.buffer))
    }

    /// Reads a signed 16-bit value, big-endian.
    pub fn read_short(&mut self) -> (r: Result<i16, ProtocolError>)
        ensures
            match r {
                Ok(v) => Self::consumed(*old(self), *final(self), 2) && v == signed16(
                    be_value(old(self)@.take(2)),
                ),
                Err(e) => e == ProtocolError::BufferUnderflow && old(self)@.len() < 2
                    && *final(self) == *old(self),
            },
    {
        if !self.ensure_available_bytes(2) {
            return Err(ProtocolError::BufferUnderflow);
        }
        Ok(buffer_get_i16(&mut self.buffer))
    }

    /// Reads an unsigned 16-bit value, big-endian.
    pub fn read_unsigned_short(&mut self) -> (r: Result<u16, ProtocolError>)
        ensures
            match r {
                Ok(v) => Self::consumed(*old(self), *final(self), 2) && v == be_value(
                    old(self)@.take(2),
                ),
                Err(e) => e == ProtocolError::BufferUnderflow && old(self)@.len() < 2
                    && *final(self) == *old(self),
            },
    {
        if !self.ensure_available_bytes(2) {
            return Err(ProtocolError::BufferUnderflow);
        }
        Ok(buffer_get_u16(&mut self.buffer))
    }

    /// Reads a signed 32-bit value, big-endian.
    pub fn read_int(&mut self) -> (r: Result<i32, ProtocolError>)
        ensures
            match r {
                Ok(v) => Self::consumed(*old(self), *final(self), 4) && v == signed32(
                    be_value(old(self)@.take(4)),
                ),
                Err(e) => e == ProtocolError::BufferUnderflow && old(self)@.len() < 4
                    && *final(self) == *old(self),
            },
    {
        if !self.ensure_available_bytes(4) {
            return Err(ProtocolError::BufferUnderflow);
        }
        Ok(buffer_get_i32(&mut self.buffer))
    }

    /// Reads a signed 64-bit value, big-endian.
    pub fn read_long(&mut self) -> (r: Result<i64, ProtocolError>)
        ensures
            match r {
                Ok(v) => Self::consumed(*old(self), *final(self), 8) && v == signed64(
                    be_value(old(self)@.take(8)),
                ),
                Err(e) => e == ProtocolError::BufferUnderflow && old(self)@.len() < 8
                    && *final(self) == *old(self),
            },
    {
        if !self.ensure_available_bytes(8) {
            return Err(ProtocolError::BufferUnderflow);
        }
        Ok(buffer_get_i64(&mut self.buffer))
    }

    /// Reads the four bytes of a 32-bit float, big-endian, as its bit
    /// pattern.
    pub fn read_float_bits(&mut self) -> (r: Result<u32, ProtocolError>)
        ensures
            match r {
                Ok(v) => Self::consumed(*old(self), *final(self), 4) && v == be_value(
                    old(self)@.take(4),
                ),
                Err(e) => e == ProtocolError::BufferUnderflow && old(self)@.len() < 4
                    && *final(self) == *old(self),
            },
    {
        proof {
            lemma_byte_capacity_values();
            if old(self)@.len() >= 4 {
                lemma_be_value_bound(old(self)@.take(4));
            }
        }
        match self.read_int() {
            Ok(v) => Ok(pattern32(v)),
            Err(e) => Err(e),
        }
    }

    /// Reads the eight bytes of a 64-bit float, big-endian, as its bit
    /// pattern.
    pub fn read_double_bits(&mut self) -> (r: Result<u64, ProtocolError>)
        ensures
            match r {
                Ok(v) => Self::consumed(*old(self), *final(self), 8) && v == be_value(
                    old(self)@.take(8),
                ),
                Err(e) => e == ProtocolError::BufferUnderflow && old(self)@.len() < 8
                    && *final(self) == *old(self),
            },
    {
        proof {
            lemma_byte_capacity_values();
            if old(self)@.len() >= 8 {
                lemma_be_value_bound(old(self)@.take(8));
            }
        }
        match self.read_long() {
            Ok(v) => Ok(pattern64(v)),
            Err(e) => Err(e),
        }
    }

    /// Writes a truth value as one byte: one for true, zero for false.
    pub fn write_boolean(&mut self, value: bool)
        ensures
            Self::appended(*old(self), *final(self), bool_bytes(value)),
    {
        self.write_byte(if value { 1 } else { 0 });
        assert(final(self)@ =~= old(self)@ + bool_bytes(value));
    }

    /// Writes one signed byte.
    pub fn write_byte(&mut self, value: i8)
        ensures
            Self::appended(*old(self), *final(self), byte_bytes(value)),
    {
        buffer_put_i8(&mut self.buffer, value);
        assert(self@ =~= old(self)@ + byte_bytes(value));
    }

    /// Writes one unsigned byte.
    pub fn write_unsigned_byte(&mut self, value: u8)
        ensures
            Self::appended(*old(self), *final(self), seq![value]),
    {
        buffer_put_u8(&mut self.buffer, value);
        assert(self@ =~= old(self)@ + seq![value]);
    }

    /// Writes a signed 16-bit value, big-endian.
    pub fn write_short(&mut self, value: i16)
        ensures
            Self::appended(*old(self), *final(self), short_bytes(value)),
    {
        buffer_put_i16(&mut self.buffer, value);
    }

    /// Writes an unsigned 16-bit value, big-endian.
    pub fn write_unsigned_short(&mut self, value: u16)
        ensures
            Self::appended(*old(self), *final(self), be_bytes(value as nat, 2)),
    {
        buffer_put_u16(&mut self.buffer, value);
    }

    /// Writes a signed 32-bit value, big-endian.
    pub fn write_int(&mut self, value: i32)
        ensures
            Self::appended(*old(self), *final(self), int_bytes(value)),
    {
        buffer_put_i32(&mut self.buffer, value);
    }

    /// Writes a signed 64-bit value, big-endian.
    pub fn write_long(&mut self, value: i64)
        ensures
            Self::appended(*old(self), *final(self), long_bytes(value)),
    {
        buffer_put_i64(&mut self.buffer, value);
    }

    /// Writes a 32-bit float, given as its bit pattern, big-endian.
    pub fn write_float_bits(&mut self, bits: u32)
        ensures
            Self::appended(*old(self), *final(self), be_bytes(bits as nat, 4)),
    {
        self.write_int(value32(bits));
    }

    /// Writes a 64-bit float, given as its bit pattern, big-endian.
    pub fn write_double_bits(&mut self, bits: u64)
        ensures
            Self::appended(*old(self), *final(self), be_bytes(bits as nat, 8)),
    {
        self.write_long(value64(bits));
    }

    /// Reads a variable-length 32-bit integer.
    pub fn read_var_int(&mut self) -> (r: Result<VarInt, ProtocolError>)
        ensures
            match varint_decode(old(self)@) {
                Ok(v) => r == Ok::<VarInt, ProtocolError>(v) && Self::consumed(
                    *old(self),
                    *final(self),
                    v.len as nat,
                ),
                Err(e) => r == Err::<VarInt, ProtocolError>(field_error(e)) && *final(self)
                    == *old(self),
            },
    {
        match decode(buffer_slice(&self.buffer)) {
            Ok(v) => {
                buffer_advance(&mut self.buffer, v.len);
                Ok(v)
            },
            Err(ProtocolError::Incomplete) => Err(ProtocolError::BufferUnderflow),
            Err(e) => Err(e),
        }
    }

    /// Reads a variable-length 32-bit integer, or nothing when the bytes
    /// at the front do not hold one.
    pub fn read_var_int_checked(&mut self) -> (r: Option<i32>)
        ensures
            match varint_decode(old(self)@) {
                Ok(v) => r == Some(v.value) && Self::consumed(
                    *old(self),
                    *final(self),
                    v.len as nat,
                ),
                Err(e) => r is None && *final(self) == *old(self),
            },
    {
        match self.read_var_int() {
            Ok(v) => Some(v.value),
            Err(_) => None,
        }
    }

    /// Reads a variable-length 64-bit integer.
    pub fn read_var_long(&mut self) -> (r: Result<i64, ProtocolError>)
        ensures
            match varlong_decode(old(self)@) {
                Ok(v) => r == Ok::<i64, ProtocolError>(v.0) && Self::consumed(
                    *old(self),
                    *final(self),
                    v.1 as nat,
                ),
                Err(e) => r == Err::<i64, ProtocolError>(field_error(e)) && *final(self)
                    == *old(self),
            },
    {
        match decode_long(buffer_slice(&self.buffer)) {
            Ok((value, width)) => {
                buffer_advance(&mut self.buffer, width);
                Ok(value)
            },
            Err(ProtocolError::Incomplete) => Err(ProtocolError::BufferUnderflow),
            Err(e) => Err(e),
        }
    }

    /// Reads a string field: a length in bytes, then that many bytes of
    /// UTF-8. Bytes that are not valid UTF-8 are an error, never replaced.
    pub fn read_string(&mut self) -> (r: Result<String, ProtocolError>)
        ensures
            match string_field(old(self)@) {
                Ok((text, width)) => r matches Ok(s) && s@ == text && Self::consumed(
                    *old(self),
                    *final(self),
                    width,
                ),
                Err(e) => r matches Err(f) && f == e && *final(self) == *old(self),
            },
    {
        let bytes = buffer_slice(&self.buffer);
        let header = match decode(bytes) {
            Ok(v) => v,
            Err(ProtocolError::Incomplete) => {
                return Err(ProtocolError::BufferUnderflow);
            },
            Err(e) => {
                return Err(e);
            },
        };
        if header.value < 0 {
            return Err(ProtocolError::BufferUnderflow);
        }
        let start: usize = header.len;
        let count: usize = header.value as usize;
        if bytes.len() - start < count {
            return Err(ProtocolError::BufferUnderflow);
        }
        let body = slice_to_vec(slice_subrange(bytes, start, start + count));
        match string_from_utf8(body) {
            Some(s) => {
                buffer_advance(&mut self.buffer, start + count);
                Ok(s)
            },
            None => Err(ProtocolError::InvalidEncoding),
        }
    }

    /// Reads the sixteen bytes of an identifier and gives them as
    /// thirty-two lowercase hexadecimal digits.
    pub fn read_uuid(&mut self) -> (r: Result<String, ProtocolError>)
        ensures
            match r {
                Ok(s) => Self::consumed(*old(self), *final(self), 16) && s@ == hex_text(
                    old(self)@.take(16),
                ) && s@.len() == 32,
                Err(e) => e == ProtocolError::BufferUnderflow && old(self)@.len() < 16
                    && *final(self) == *old(self),
            },
    {
        if !self.ensure_available_bytes(16) {
            return Err(ProtocolError::BufferUnderflow);
        }
        let bytes = buffer_slice(&self.buffer);
        let text = to_hex(slice_subrange(bytes, 0, 16));
        buffer_advance(&mut self.buffer, 16);
        Ok(text)
    }

    /// Writes a variable-length 32-bit integer.
    pub fn write_var_int(&mut self, value: &VarInt)
        ensures
            Self::appended(*old(self), *final(self), varint_bytes(value.value)),
    {
        self.write_var_int_checked(value.to_i32());
    }

    /// Writes a 32-bit value as a variable-length integer.
    pub fn write_var_int_checked(&mut self, value: i32)
        ensures
            Self::appended(*old(self), *final(self), varint_bytes(value)),
    {
        let groups = encode(value);
        buffer_extend(&mut self.buffer, groups.as_slice());
    }

    /// Writes a 64-bit value as a variable-length integer.
    pub fn write_var_long(&mut self, value: i64)
        ensures
            Self::appended(*old(self), *final(self), varlong_bytes(value)),
    {
        let groups = encode_long(value);
        buffer_extend(&mut self.buffer, groups.as_slice());
    }

    /// Writes a string field: the length of the text in bytes, then its
    /// UTF-8 bytes.
    pub fn write_string(&mut self, value: &str)
        requires
            encode_utf8(value@).len() <= i32::MAX,
        ensures
            Self::appended(*old(self), *final(self), string_field_bytes(value@)),
    {
        let bytes = value.as_bytes();
        self.write_var_int_checked(bytes.len() as i32);
        buffer_extend(&mut self.buffer, bytes);
        assert(self@ =~= old(self)@ + string_field_bytes(value@));
    }

    /// Writes the sixteen bytes of an identifier given as text: thirty-two
    /// hexadecimal digits, with or without hyphens. Any other text is
    /// refused and nothing is written.
    pub fn write_uuid(&mut self, value: &str) -> (r: Result<(), ProtocolError>)
        ensures
            match uuid_bytes(encode_utf8(value@)) {
                Some(b) => r is Ok && Self::appended(*old(self), *final(self), b),
                None => r == Err::<(), ProtocolError>(ProtocolError::InvalidEncoding)
                    && *final(self) == *old(self),
            },
    {
        match parse_uuid(value) {
            Some(b) => {
                buffer_extend(&mut self.buffer, b.as_slice());
                Ok(())
            },
            None => Err(ProtocolError::InvalidEncoding),
        }
    }

    /// Moves the running position forward by `size`. Gives the new position
    /// when `update_offset` is set, and the position before the move
    /// otherwise.
    pub fn add_offset(&mut self, size: usize, update_offset: bool) -> (r: usize)
        requires
            old(self).position() + size <= usize::MAX,
        ensures
            final(self).position() == old(self).position() + size,
            final(self)@ == old(self)@,
            r == if update_offset {
                final(self).position()
            } else {
                old(self).position()
            },
    {
        let before: usize = self.offset;
        self.offset = self.offset + size;
        if update_offset {
            self.offset
        } else {
            before
        }
    }

    /// Builds the frame that carries the buffer's bytes as the payload of a
    /// packet of type `id`. The buffer itself is left as it was.
    pub fn build_packet(&mut self, id: i32) -> (r: BytesMut)
        requires
            varint_bytes(id).len() + old(self)@.len() <= i32::MAX,
        ensures
            buffer_bytes(r) == frame_bytes(id, old(self)@),
            *final(self) == *old(self),
    {
        let kind = encode(id);
        let payload = buffer_slice(&self.buffer);
        let length = encode((kind.len() + payload.len()) as i32);
        let mut frame = buffer_new();
        buffer_extend(&mut frame, length.as_slice());
        buffer_extend(&mut frame, kind.as_slice());
        buffer_extend(&mut frame, payload);
        assert(buffer_bytes(frame) =~= frame_bytes(id, old(self)@));
        frame
    }

    /// Appends the bytes of another buffer and moves the running position
    /// past them.
    pub fn append(&mut self, data: &BytesMut)
        requires
            old(self).position() + buffer_bytes(*data).len() <= usize::MAX,
        ensures
            final(self)@ == old(self)@ + buffer_bytes(*data),
            final(self).position() == old(self).position() + buffer_bytes(*data).len(),
    {
        let bytes = buffer_slice(data);
        buffer_extend(&mut self.buffer, bytes);
        self.add_offset(bytes.len(), true);
    }

    /// Appends the bytes of a slice and moves the running position past
    /// them.
    pub fn extend_from_slice(&mut self, data: &[u8])
        requires
            old(self).position() + data@.len() <= usize::MAX,
        ensures
            final(self)@ == old(self)@ + data@,
            final(self).position() == old(self).position() + data@.len(),
    {
        buffer_extend(&mut self.buffer, data);
        self.add_offset(data.len(), true);
    }

    /// An empty packet buffer, to be filled by writes.
    pub fn empty() -> (r: Self)
        ensures
            r@ == Seq::<u8>::empty(),
            r.position() == 0,
    {
        PacketManager { buffer: buffer_new(), offset: 0 }
    }

    /// A packet buffer that holds a copy of `data`, to be read from.
    pub fn from_bytes(data: &[u8]) -> (r: Self)
        ensures
            r@ == data@,
            r.position() == 0,
    {
        let mut buffer = buffer_new();
        buffer_extend(&mut buffer, data);
        assert(buffer_bytes(buffer) =~= data@);
        PacketManager { buffer, offset: 0 }
    }

    /// Appends raw bytes. The running position stays.
    pub fn write_bytes(&mut self, data: &[u8])
        ensures
            Self::appended(*old(self), *final(self), data@),
    {
        buffer_extend(&mut self.buffer, data);
    }

    /// The bytes that are still to be read, without taking them.
    pub fn as_slice(&self) -> (r: &[u8])
        ensures
            r@ == self@,
    {
        buffer_slice(&self.buffer)
    }

    /// Takes `n` bytes off the front without looking at them.
    pub fn advance(&mut self, n: usize)
        requires
            n <= old(self)@.len(),
        ensures
            Self::consumed(*old(self), *final(self), n as nat),
    {
        buffer_advance(&mut self.buffer, n);
    }

    /// The number of bytes that are still to be read.
    pub fn len(&self) -> (r: usize)
        ensures
            r == self@.len(),
    {
        buffer_len(&self.buffer)
    }

    /// Builds the frame as [`PacketManager::build_packet`] does, as a
    /// vector of bytes.
    pub fn build_frame(&self, id: i32) -> (r: Vec<u8>)
        requires
            frame_fits(id, self@),
        ensures
            r@ == frame_bytes(id, self@),
    {
        let kind = encode(id);
        let payload = buffer_slice(&self.buffer);
        let mut frame = encode((kind.len() + payload.len()) as i32);
        frame.extend_from_slice(kind.as_slice());
        frame.extend_from_slice(payload);
        assert(frame@ =~= frame_bytes(id, self@));
        frame
    }

    /// Builds the frame as [`PacketManager::build_packet`] does, as a
    /// vector, when the frame fits its length prefix, and refuses with
    /// `FrameTooLarge` when it does not.
    pub fn try_build_packet(&mut self, id: i32) -> (r: Result<Vec<u8>, ProtocolError>)
        ensures
            *final(self) == *old(self),
            match r {
                Ok(frame) => frame_fits(id, old(self)@) && frame@ == frame_bytes(id, old(self)@),
                Err(e) => e == ProtocolError::FrameTooLarge && !frame_fits(id, old(self)@),
            },
    {
        let kind_len: usize = VarInt::new(id).length();
        if self.len() > 0x7fff_ffff - kind_len {
            return Err(ProtocolError::FrameTooLarge);
        }
        Ok(self.build_frame(id))
    }

    /// Writes a string field as [`PacketManager::write_string`] does when
    /// the text fits its length prefix, and refuses with `FrameTooLarge`,
    /// writing nothing, when it does not.
    pub fn try_write_string(&mut self, value: &str) -> (r: Result<(), ProtocolError>)
        ensures
            match r {
                Ok(_) => encode_utf8(value@).len() <= i32::MAX && Self::appended(
                    *old(self),
                    *final(self),
                    string_field_bytes(value@),
                ),
                Err(e) => e == ProtocolError::FrameTooLarge && encode_utf8(value@).len()
                    > i32::MAX && *final(self) == *old(self),
            },
    {
        if value.as_bytes().len() > 0x7fff_ffff {
            return Err(ProtocolError::FrameTooLarge);
        }
        self.write_string(value);
        Ok(())
    }

    /// A copy of the bytes that are still to be read.
    pub fn to_vec(&self) -> (r: Vec<u8>)
        ensures
            r@ == self@,
    {
        slice_to_vec(buffer_slice(&self.buffer))
    }

    /// The buffer itself.
    pub fn get_buffer(&self) -> (r: &BytesMut)
        ensures
            buffer_bytes(*r) == self@,
    {
        &self.buffer
    }

    /// The running position.
    pub fn get_offset(&self) -> (r: usize)
        ensures
            r == self.position(),
    {
        self.offset
    }
}

} // verus!
