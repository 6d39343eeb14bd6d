//! Stream de-framing: complete frames out of bytes that arrive in pieces.
//!
//! On the wire a frame is the length of what follows, then the packet type,
//! then the payload; the first two are variable-length integers. A transport
//! keeps no message boundaries, so one read may bring a part of a frame or
//! several frames at once. The codec collects what arrives and hands out a
//! frame as soon as all of its bytes are there.

use vstd::prelude::*;
use vstd::slice::{slice_subrange, slice_to_vec};
use bytes::BytesMut;
use crate::buffer::{
    buffer_advance, buffer_bytes, buffer_extend, buffer_len, buffer_new, buffer_slice,
};
use crate::error::ProtocolError;
use crate::packet_manager::{field_error, frame_bytes, PacketManager};
use crate::varint::{
    decode, lemma_capacity_values, lemma_decode_prefix_incomplete, lemma_varint_round_trip,
    varint_bytes, varint_decode,
};
use crate::wire::unsigned32;

verus! {

/// The usual ceiling on the declared length of a frame: what three length
/// bytes can say.
pub const MAX_FRAME_LENGTH: usize = 0x1F_FFFF;

/// One complete frame: the packet type and the payload.
#[derive(Clone, Debug, PartialEq, Eq)]
pub struct Frame {
    pub packet_id: i32,
    pub payload: Vec<u8>,
}

/// What the bytes collected so far amount to.
pub enum Framing {
    /// No complete frame yet: more bytes are needed.
    NeedMore,
    /// A complete frame stands at the front and takes `consumed` bytes.
    Complete { packet_id: i32, payload: Seq<u8>, consumed: nat },
    /// The bytes at the front can never become a frame.
    Failed(ProtocolError),
}

/// Looks for one frame at the front of `bytes`.
///
/// The length prefix is decoded first; while it is incomplete, more bytes
/// are needed. A declared length that is negative or above `ceiling` fails
/// at once, before any of the frame's bytes are waited for. While fewer
/// bytes than declared are there, more are needed. Then the packet type is
/// decoded inside the frame; what follows it in the frame is the payload.
pub open spec fn parse_frame(bytes: Seq<u8>, ceiling: nat) -> Framing {
    match varint_decode(bytes) {
        Err(e) => if e is Incomplete {
            Framing::NeedMore
        } else {
            Framing::Failed(e)
        },
        Ok(length) => {
            if length.value < 0 || length.value > ceiling {
                Framing::Failed(ProtocolError::FrameTooLarge)
            } else if bytes.len() < length.len + length.value {
                Framing::NeedMore
            } else {
                let body = bytes.subrange(length.len as int, length.len + length.value);
                match varint_decode(body) {
                    Err(e) => Framing::Failed(field_error(e)),
                    Ok(kind) => Framing::Complete {
                        packet_id: kind.value,
                        payload: body.skip(kind.len as int),
                        consumed: (length.len + length.value) as nat,
                    },
                }
            }
        },
    }
}

impl Frame {
    /// The payload as a packet buffer, ready for typed reads.
    pub fn into_packet(self) -> (r: PacketManager)
        ensures
            r@ == self.payload@,
            r.position() == 0,
    {
        PacketManager::from_bytes(self.payload.as_slice())
    }
}

/// The accumulation buffer of one connection and the ceiling on frame
/// lengths.
pub struct FrameCodec {
    buffer: BytesMut,
    ceiling: usize,
}

impl FrameCodec {
    /// The bytes that have arrived and belong to no frame handed out yet.
    pub closed spec fn buffered(&self) -> Seq<u8> {
        buffer_bytes(self.buffer)
    }

    /// The largest declared length that is accepted.
    pub closed spec fn limit(&self) -> usize {
        self.ceiling
    }

    /// A codec that holds no bytes and accepts declared lengths up to
    /// `ceiling`.
    pub fn new(ceiling: usize) -> (r: Self)
        ensures
            r.buffered() == Seq::<u8>::empty(),
            r.limit() == ceiling,
    {
        FrameCodec { buffer: buffer_new(), ceiling }
    }

    /// Takes in bytes that the transport delivered.
    pub fn feed(&mut self, data: &[u8])
        ensures
            final(self).buffered() == old(self).buffered() + data@,
            final(self).limit() == old(self).limit(),
    {
        buffer_extend(&mut self.buffer, data);
    }

    /// The number of bytes held.
    pub fn buffered_len(&self) -> (n: usize)
        ensures
            n == self.buffered().len(),
    {
        buffer_len(&self.buffer)
    }

    /// The largest declared length that is accepted.
    pub fn ceiling(&self) -> (n: usize)
        ensures
            n == self.limit(),
    {
        self.ceiling
    }

    /// Hands out the frame at the front of the held bytes, if all of it is
    /// there, and moves past it. Without a complete frame nothing changes;
    /// nor does anything change when the bytes at the front cannot become
    /// a frame, which is an error.
    pub fn next_frame(&mut self) -> (r: Result<Option<Frame>, ProtocolError>)
        ensures
            final(self).limit() == old(self).limit(),
            match parse_frame(old(self).buffered(), old(self).limit() as nat) {
                Framing::NeedMore => r matches Ok(None) && *final(self) == *old(self),
                Framing::Complete { packet_id, payload, consumed } => {
                    &&& r matches Ok(Some(f)) && f.packet_id == packet_id && f.payload@ == payload
                    &&& 1 <= consumed <= old(self).buffered().len()
                    &&& final(self).buffered() == old(self).buffered().skip(consumed as int)
                },
                Framing::Failed(e) => r matches Err(f) && f == e && *final(self) == *old(self),
            },
    {
        let bytes = buffer_slice(&self.buffer);
        let length = match decode(bytes) {
            Ok(v) => v,
            Err(ProtocolError::Incomplete) => {
                return Ok(None);
            },
            Err(e) => {
                return Err(e);
            },
        };
        if length.value < 0 {
            return Err(ProtocolError::FrameTooLarge);
        }
        let declared: usize = length.value as usize;
        if declared > self.ceiling {
            return Err(ProtocolError::FrameTooLarge);
        }
        if bytes.len() - length.len < declared {
            return Ok(None);
        }
        let body = slice_subrange(bytes, length.len, length.len + declared);
        let kind = match decode(body) {
            Ok(v) => v,
            Err(ProtocolError::Incomplete) => {
                return Err(ProtocolError::BufferUnderflow);
            },
            Err(e) => {
                return Err(e);
            },
        };
        let payload = slice_to_vec(slice_subrange(body, kind.len, body.len()));
        assert(payload@ =~= body@.skip(kind.len as int));
        buffer_advance(&mut self.buffer, length.len + declared);
        Ok(Some(Frame { packet_id: kind.value, payload }))
    }
}

/// De-framing gives back what framing took: the bytes of a built frame,
/// with whatever follows them, hold exactly that frame at the front, with
/// its type and its payload unchanged. The frame must fit its own length
/// prefix and stay within the ceiling.
pub proof fn lemma_frame_round_trip(id: i32, payload: Seq<u8>, ceiling: nat, rest: Seq<u8>)
    requires
        varint_bytes(id).len() + payload.len() <= i32::MAX,
        varint_bytes(id).len() + payload.len() <= ceiling,
    ensures
        parse_frame(frame_bytes(id, payload) + rest, ceiling) == (Framing::Complete {
            packet_id: id,
            payload,
            consumed: frame_bytes(id, payload).len(),
        }),
        parse_frame(frame_bytes(id, payload), ceiling) == (Framing::Complete {
            packet_id: id,
            payload,
            consumed: frame_bytes(id, payload).len(),
        }),
{
    lemma_frame_round_trip_with(id, payload, ceiling, rest);
    lemma_frame_round_trip_with(id, payload, ceiling, Seq::empty());
    assert(frame_bytes(id, payload) + Seq::<u8>::empty() =~= frame_bytes(id, payload));
}

proof fn lemma_frame_round_trip_with(id: i32, payload: Seq<u8>, ceiling: nat, rest: Seq<u8>)
    requires
        varint_bytes(id).len() + payload.len() <= i32::MAX,
        varint_bytes(id).len() + payload.len() <= ceiling,
    ensures
        parse_frame(frame_bytes(id, payload) + rest, ceiling) == (Framing::Complete {
            packet_id: id,
            payload,
            consumed: frame_bytes(id, payload).len(),
        }),
{
    let kind = varint_bytes(id);
    let declared = (kind.len() + payload.len()) as i32;
    let prefix = varint_bytes(declared);
    let bytes = frame_bytes(id, payload) + rest;
    lemma_varint_round_trip(declared, kind + payload + rest);
    lemma_varint_round_trip(id, payload);
    assert(bytes =~= prefix + (kind + payload + rest));
    let body = bytes.subrange(prefix.len() as int, prefix.len() + declared);
    assert(body =~= kind + payload);
    assert(body.skip(kind.len() as int) =~= payload);
}

/// A frame that has arrived only in part is no frame yet: every proper
/// front part of a built frame asks for more bytes, wherever the cut falls.
/// So a frame fed in pieces comes out once, when its last byte is in, and
/// with nothing left behind it nothing more comes out.
pub proof fn lemma_partial_frame_needs_more(id: i32, payload: Seq<u8>, ceiling: nat, k: int)
    requires
        varint_bytes(id).len() + payload.len() <= i32::MAX,
        varint_bytes(id).len() + payload.len() <= ceiling,
        0 <= k < frame_bytes(id, payload).len(),
    ensures
        parse_frame(frame_bytes(id, payload).take(k), ceiling) == Framing::NeedMore,
        parse_frame(Seq::<u8>::empty(), ceiling) == Framing::NeedMore,
        frame_bytes(id, payload).skip(frame_bytes(id, payload).len() as int) == Seq::<u8>::empty(),
{
    let kind = varint_bytes(id);
    let declared = (kind.len() + payload.len()) as i32;
    let prefix = varint_bytes(declared);
    let whole = frame_bytes(id, payload);
    let part = whole.take(k);
    lemma_capacity_values();
    lemma_varint_round_trip(declared, Seq::empty());
    if k < prefix.len() {
        assert(part =~= prefix.take(k));
        lemma_decode_prefix_incomplete(unsigned32(declared), 5, k);
    } else {
        let tail = (kind + payload).take(k - prefix.len());
        assert(part =~= prefix + tail);
        lemma_varint_round_trip(declared, tail);
    }
    assert(whole.skip(whole.len() as int) =~= Seq::<u8>::empty());
}

} // verus!
