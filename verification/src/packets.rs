//! The handlers that the dispatch table binds packets to. Each reads its
//! fields from the payload of a frame and gives back what is to be sent.

use vstd::prelude::*;
use crate::codec::Decode;
use crate::error::ProtocolError;
use crate::packet_manager::{frame_bytes, frame_fits, string_field, PacketManager};
use crate::play::{
    login_success_frame, login_success_payload, play_entry, play_entry_frames, rows, WorldData,
};
use crate::chunk::Chunk;
use crate::state::{
    handshake_target, next_state_of, ConnectionState, LOGIN_SUCCESS_PACKET, PONG_PACKET,
};
use crate::structs::handshake_fields;
use crate::wire::{lemma_be_bytes_of_value, lemma_be_value_bound, lemma_byte_capacity_values};
use crate::varint::lemma_varint_round_trip;
use vstd::utf8::encode_utf8;

verus! {

/// What a handshake with this payload leads to: the state that it asks
/// for, or the error that ends the connection.
pub open spec fn handshake_outcome(payload: Seq<u8>) -> Result<ConnectionState, ProtocolError> {
    match handshake_fields(payload) {
        Err(e) => Err(e),
        Ok(fields) => handshake_target(fields.next_state.value),
    }
}

/// The answer to a ping with this payload: the same eight bytes in a pong
/// frame.
pub open spec fn pong_outcome(payload: Seq<u8>) -> Result<Seq<u8>, ProtocolError> {
    if payload.len() < 8 {
        Err(ProtocolError::BufferUnderflow)
    } else {
        Ok(frame_bytes(PONG_PACKET, payload.take(8)))
    }
}

/// What the start of a login with this payload is answered with: the
/// login-success frame for the session identity and the name asked for,
/// and then the frames of the entry into the game.
pub open spec fn login_outcome(
    payload: Seq<u8>,
    uuid: u128,
    dimension_codec: Seq<u8>,
    chunks: Seq<Chunk>,
) -> Result<Seq<Seq<u8>>, ProtocolError> {
    match string_field(payload) {
        Err(e) => Err(e),
        Ok((username, _)) => {
            if !(encode_utf8(username).len() <= i32::MAX && frame_fits(
                LOGIN_SUCCESS_PACKET,
                login_success_payload(uuid, username),
            )) {
                Err(ProtocolError::FrameTooLarge)
            } else {
                match play_entry(dimension_codec, chunks) {
                    Err(e) => Err(e),
                    Ok(frames) => Ok(
                        seq![
                            frame_bytes(
                                LOGIN_SUCCESS_PACKET,
                                login_success_payload(uuid, username),
                            ),
                        ] + frames,
                    ),
                }
            }
        },
    }
}

/// The handler of the handshake.
pub struct HandshakePacket;

impl HandshakePacket {
    pub fn new() -> (r: Self) {
        HandshakePacket
    }

    /// Reads the handshake and moves the connection to the state that it
    /// asks for: `Status` for 1, `Login` for 2. Any other number is an
    /// `IllegalStateTransition`, and the state stays as it was.
    pub fn handle(&self, packet: &mut PacketManager, state: &mut ConnectionState) -> (r: Result<
        (),
        ProtocolError,
    >)
        ensures
            match handshake_outcome(old(packet)@) {
                Ok(target) => r is Ok && *final(state) == target,
                Err(e) => r matches Err(f) && f == e && *final(state) == *old(state),
            },
            match handshake_fields(old(packet)@) {
                Ok(fields) => PacketManager::consumed(*old(packet), *final(packet), fields.width),
                Err(_) => *final(packet) == *old(packet),
            },
    {
        let handshake = match crate::structs::HandshakePacket::decode(packet) {
            Ok(h) => h,
            Err(e) => {
                return Err(e);
            },
        };
        match next_state_of(handshake.next_state.to_i32()) {
            Ok(target) => {
                *state = target;
                Ok(())
            },
            Err(e) => Err(e),
        }
    }
}

/// The handler of the start of a login.
pub struct PlayerJoinPacket;

impl PlayerJoinPacket {
    pub fn new() -> (r: Self) {
        PlayerJoinPacket
    }

    /// Reads the name that the client asks for and answers with the
    /// login-success frame and the frames of the entry into the game. The
    /// connection is in `Play` afterwards. When anything fails nothing is
    /// sent and the state stays as it was.
    pub fn handle(
        &self,
        packet: &mut PacketManager,
        uuid: u128,
        world: &WorldData,
        state: &mut ConnectionState,
    ) -> (r: Result<Vec<Vec<u8>>, ProtocolError>)
        ensures
            match login_outcome(old(packet)@, uuid, world.dimension_codec@, world.chunks@) {
                Ok(frames) => r matches Ok(v) && rows(v@) == frames && *final(state)
                    == ConnectionState::Play,
                Err(e) => r matches Err(f) && f == e && *final(state) == *old(state),
            },
    {
        let username = match packet.read_string() {
            Ok(name) => name,
            Err(e) => {
                return Err(e);
            },
        };
        let success = match login_success_frame(uuid, username.as_str()) {
            Ok(frame) => frame,
            Err(e) => {
                return Err(e);
            },
        };
        let mut entry = match play_entry_frames(world) {
            Ok(frames) => frames,
            Err(e) => {
                return Err(e);
            },
        };
        let ghost tail = rows(entry@);
        entry.insert(0, success);
        assert(rows(entry@) =~= seq![success@] + tail);
        *state = ConnectionState::Play;
        Ok(entry)
    }
}

/// Answers a ping: the eight bytes of the payload go back as they came, in
/// a pong frame.
pub fn handle_pong(packet: &mut PacketManager) -> (r: Result<Vec<u8>, ProtocolError>)
    ensures
        match pong_outcome(old(packet)@) {
            Ok(frame) => r matches Ok(v) && v@ == frame && PacketManager::consumed(
                *old(packet),
                *final(packet),
                8,
            ),
            Err(e) => r matches Err(f) && f == e && *final(packet) == *old(packet),
        },
{
    let nonce = match packet.read_long() {
        Ok(v) => v,
        Err(e) => {
            return Err(e);
        },
    };
    let mut pong = PacketManager::empty();
    pong.write_long(nonce);
    proof {
        let eight = old(packet)@.take(8);
        lemma_byte_capacity_values();
        lemma_be_value_bound(eight);
        lemma_be_bytes_of_value(eight);
        assert(pong@ =~= eight);
        lemma_varint_round_trip(PONG_PACKET, Seq::empty());
    }
    Ok(pong.build_frame(PONG_PACKET))
}

/// Reads a chat message. Nothing is sent in answer.
pub fn handle_chat(packet: &mut PacketManager) -> (r: Result<String, ProtocolError>)
    ensures
        match string_field(old(packet)@) {
            Ok((text, width)) => r matches Ok(s) && s@ == text && PacketManager::consumed(
                *old(packet),
                *final(packet),
                width,
            ),
            Err(e) => r matches Err(f) && f == e && *final(packet) == *old(packet),
        },
{
    packet.read_string()
}

} // verus!
