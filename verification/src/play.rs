//! The frames that take a client from a login into the game, and keep it
//! there.

use vstd::prelude::*;
use crate::chunk::{chunk_frame, Chunk};
use crate::error::ProtocolError;
use crate::packet_manager::{frame_bytes, frame_fits, string_field_bytes, PacketManager};
use crate::state::{
    JOIN_GAME_PACKET, KEEP_ALIVE_PACKET, LOGIN_SUCCESS_PACKET, PLAYER_POSITION_PACKET,
};
use crate::varint::{lemma_varint_round_trip, varint_bytes};
use crate::wire::{
    be_bytes, bool_bytes, byte_bytes, int_bytes, lemma_be_bytes_len, long_bytes, unsigned64,
    value64,
};
use vstd::utf8::encode_utf8;

verus! {

/// What the world data provider supplies for the entry into the game.
#[derive(Clone, Debug)]
pub struct WorldData {
    /// The dimension codec, a blob that is passed on as it is.
    pub dimension_codec: Vec<u8>,
    /// The chunks around the origin, in the order in which they are sent.
    pub chunks: Vec<Chunk>,
}

/// The session identity of a connection that was given none.
pub const DEFAULT_SESSION_UUID: u128 = 0x550e8400_e29b_41d4_a716_446655440000;

/// The height at which a player enters the world: the bit pattern of 64.0.
pub const SPAWN_HEIGHT_BITS: u64 = 0x4050_0000_0000_0000;

/// The views of the vectors in a sequence.
pub open spec fn rows(frames: Seq<Vec<u8>>) -> Seq<Seq<u8>> {
    Seq::new(frames.len(), |i: int| frames[i]@)
}

/// An identifier on the wire: two 64-bit halves, the high one first, each
/// big-endian.
pub open spec fn uuid_wire(uuid: u128) -> Seq<u8> {
    be_bytes((uuid / 0x1_0000_0000_0000_0000) as nat, 8) + be_bytes(
        (uuid % 0x1_0000_0000_0000_0000) as nat,
        8,
    )
}

/// The payload of a login-success frame: the session identity and the
/// name that the client asked for.
pub open spec fn login_success_payload(uuid: u128, username: Seq<char>) -> Seq<u8> {
    uuid_wire(uuid) + string_field_bytes(username)
}

/// Builds the login-success frame. A name too long for a frame is refused
/// with `FrameTooLarge`.
pub fn login_success_frame(uuid: u128, username: &str) -> (r: Result<Vec<u8>, ProtocolError>)
    ensures
        match r {
            Ok(frame) => frame@ == frame_bytes(
                LOGIN_SUCCESS_PACKET,
                login_success_payload(uuid, username@),
            ),
            Err(e) => e == ProtocolError::FrameTooLarge,
        },
        r is Ok <==> encode_utf8(username@).len() <= i32::MAX && frame_fits(
            LOGIN_SUCCESS_PACKET,
            login_success_payload(uuid, username@),
        ),
{
    let high: u64 = (uuid / 0x1_0000_0000_0000_0000) as u64;
    let low: u64 = (uuid % 0x1_0000_0000_0000_0000) as u64;
    let mut packet = PacketManager::empty();
    packet.write_long(value64(high));
    packet.write_long(value64(low));
    match packet.try_write_string(username) {
        Ok(_) => {},
        Err(e) => {
            return Err(e);
        },
    }
    assert(packet@ =~= login_success_payload(uuid, username@));
    packet.try_build_packet(LOGIN_SUCCESS_PACKET)
}

/// The payload of a join-game frame around the dimension codec.
pub open spec fn join_game_payload(dimension_codec: Seq<u8>) -> Seq<u8> {
    int_bytes(0) + bool_bytes(true) + seq![1u8] + byte_bytes(-1i8) + varint_bytes(3)
        + string_field_bytes("minecraft:overworld"@) + dimension_codec + string_field_bytes(
        "minecraft:overworld"@,
    ) + long_bytes(1) + long_bytes(10) + long_bytes(10) + bool_bytes(false) + bool_bytes(true)
        + bool_bytes(false) + bool_bytes(true)
}

/// The name of the dimension is plain ASCII and short.
proof fn lemma_dimension_name()
    ensures
        encode_utf8("minecraft:overworld"@).len() == 19,
{
    reveal_strlit("minecraft:overworld");
    let name = "minecraft:overworld"@;
    assert(vstd::utf8::is_ascii_chars(name));
    vstd::utf8::is_ascii_chars_encode_utf8(name);
}

/// Builds the join-game frame: the entity, the game mode, the dimension
/// with its codec, and the view distance. A codec too long for a frame is
/// refused with `FrameTooLarge`.
pub fn join_game_frame(dimension_codec: &[u8]) -> (r: Result<Vec<u8>, ProtocolError>)
    ensures
        match r {
            Ok(frame) => frame@ == frame_bytes(
                JOIN_GAME_PACKET,
                join_game_payload(dimension_codec@),
            ),
            Err(e) => e == ProtocolError::FrameTooLarge,
        },
        r is Ok <==> frame_fits(JOIN_GAME_PACKET, join_game_payload(dimension_codec@)),
{
    proof {
        lemma_dimension_name();
    }
    let mut packet = PacketManager::empty();
    packet.write_int(0);
    packet.write_boolean(true);
    packet.write_unsigned_byte(1);
    packet.write_byte(-1);
    packet.write_var_int_checked(3);
    packet.write_string("minecraft:overworld");
    packet.write_bytes(dimension_codec);
    packet.write_string("minecraft:overworld");
    packet.write_long(1);
    packet.write_long(10);
    packet.write_long(10);
    packet.write_boolean(false);
    packet.write_boolean(true);
    packet.write_boolean(false);
    packet.write_boolean(true);
    assert(packet@ =~= join_game_payload(dimension_codec@));
    packet.try_build_packet(JOIN_GAME_PACKET)
}

/// The payload of a position frame: three coordinates and two angles,
/// given as the bit patterns of their floating-point values, then the
/// flags and the teleport number.
pub open spec fn player_position_payload(
    x: u64,
    y: u64,
    z: u64,
    yaw: u32,
    pitch: u32,
    flags: i8,
    teleport_id: i32,
) -> Seq<u8> {
    be_bytes(x as nat, 8) + be_bytes(y as nat, 8) + be_bytes(z as nat, 8) + be_bytes(
        yaw as nat,
        4,
    ) + be_bytes(pitch as nat, 4) + byte_bytes(flags) + varint_bytes(teleport_id)
}

/// Builds a position frame.
pub fn player_position_frame(
    x: u64,
    y: u64,
    z: u64,
    yaw: u32,
    pitch: u32,
    flags: i8,
    teleport_id: i32,
) -> (r: Vec<u8>)
    ensures
        r@ == frame_bytes(
            PLAYER_POSITION_PACKET,
            player_position_payload(x, y, z, yaw, pitch, flags, teleport_id),
        ),
{
    let mut packet = PacketManager::empty();
    packet.write_double_bits(x);
    packet.write_double_bits(y);
    packet.write_double_bits(z);
    packet.write_float_bits(yaw);
    packet.write_float_bits(pitch);
    packet.write_byte(flags);
    packet.write_var_int_checked(teleport_id);
    proof {
        assert(packet@ =~= player_position_payload(x, y, z, yaw, pitch, flags, teleport_id));
        lemma_be_bytes_len(x as nat, 8);
        lemma_be_bytes_len(y as nat, 8);
        lemma_be_bytes_len(z as nat, 8);
        lemma_be_bytes_len(yaw as nat, 4);
        lemma_be_bytes_len(pitch as nat, 4);
        lemma_varint_round_trip(teleport_id, Seq::empty());
        lemma_varint_round_trip(PLAYER_POSITION_PACKET, Seq::empty());
    }
    packet.build_frame(PLAYER_POSITION_PACKET)
}

/// The position frame that places a player at the spawn point.
pub open spec fn spawn_position_frame() -> Seq<u8> {
    frame_bytes(
        PLAYER_POSITION_PACKET,
        player_position_payload(0, SPAWN_HEIGHT_BITS, 0, 0, 0, 0, 0),
    )
}

/// Builds a keep-alive frame with the given number.
pub fn keep_alive_frame(id: i64) -> (r: Vec<u8>)
    ensures
        r@ == frame_bytes(KEEP_ALIVE_PACKET, long_bytes(id)),
{
    let mut packet = PacketManager::empty();
    packet.write_long(id);
    proof {
        assert(packet@ =~= long_bytes(id));
        lemma_be_bytes_len(unsigned64(id), 8);
        lemma_varint_round_trip(KEEP_ALIVE_PACKET, Seq::empty());
    }
    packet.build_frame(KEEP_ALIVE_PACKET)
}

/// The chunk-data frames for the chunks, in order, or the error of the
/// first chunk that has none.
pub open spec fn chunk_frames(chunks: Seq<Chunk>) -> Result<Seq<Seq<u8>>, ProtocolError>
    decreases chunks.len(),
{
    if chunks.len() == 0 {
        Ok(Seq::empty())
    } else {
        match chunk_frames(chunks.drop_last()) {
            Err(e) => Err(e),
            Ok(head) => match chunk_frame(
                chunks.last().x,
                chunks.last().z,
                chunks.last().data@,
            ) {
                Err(e) => Err(e),
                Ok(frame) => Ok(head.push(frame)),
            },
        }
    }
}

/// The frames that are sent on the entry into the game, in order: the
/// join-game frame, the chunk-data frames, and the position frame that
/// places the player at the spawn point.
pub open spec fn play_entry(dimension_codec: Seq<u8>, chunks: Seq<Chunk>) -> Result<
    Seq<Seq<u8>>,
    ProtocolError,
> {
    if !frame_fits(JOIN_GAME_PACKET, join_game_payload(dimension_codec)) {
        Err(ProtocolError::FrameTooLarge)
    } else {
        match chunk_frames(chunks) {
            Err(e) => Err(e),
            Ok(frames) => Ok(
                seq![frame_bytes(JOIN_GAME_PACKET, join_game_payload(dimension_codec))] + frames
                    + seq![spawn_position_frame()],
            ),
        }
    }
}

/// Builds the frames of the entry into the game.
pub fn play_entry_frames(world: &WorldData) -> (r: Result<Vec<Vec<u8>>, ProtocolError>)
    ensures
        match play_entry(world.dimension_codec@, world.chunks@) {
            Ok(frames) => r matches Ok(v) && rows(v@) == frames,
            Err(e) => r matches Err(f) && f == e,
        },
{
    let mut out: Vec<Vec<u8>> = Vec::new();
    match join_game_frame(world.dimension_codec.as_slice()) {
        Ok(frame) => {
            out.push(frame);
        },
        Err(e) => {
            return Err(e);
        },
    }
    let ghost join = frame_bytes(JOIN_GAME_PACKET, join_game_payload(world.dimension_codec@));
    let mut i: usize = 0;
    proof {
        assert(world.chunks@.take(0) =~= Seq::<Chunk>::empty());
        assert(rows(out@) =~= seq![join] + Seq::<Seq<u8>>::empty());
    }
    while i < world.chunks.len()
        invariant
            i <= world.chunks@.len(),
            frame_fits(JOIN_GAME_PACKET, join_game_payload(world.dimension_codec@)),
            join == frame_bytes(JOIN_GAME_PACKET, join_game_payload(world.dimension_codec@)),
            chunk_frames(world.chunks@.take(i as int)) matches Ok(frames) && rows(out@) == seq![
                join,
            ] + frames,
        decreases world.chunks@.len() - i,
    {
        let ghost before = rows(out@);
        proof {
            let next = world.chunks@.take(i + 1);
            assert(next.drop_last() =~= world.chunks@.take(i as int));
            assert(next.last() == world.chunks@[i as int]);
        }
        match world.chunks[i].frame() {
            Ok(frame) => {
                out.push(frame);
                proof {
                    let frames = chunk_frames(world.chunks@.take(i as int))->Ok_0;
                    assert(rows(out@) =~= before.push(frame@));
                    assert(before.push(frame@) =~= seq![join] + frames.push(frame@));
                }
            },
            Err(e) => {
                proof {
                    lemma_chunk_frames_prefix(world.chunks@, i + 1);
                }
                return Err(e);
            },
        }
        i = i + 1;
    }
    assert(world.chunks@.take(i as int) =~= world.chunks@);
    let ghost before = rows(out@);
    let position = player_position_frame(0, SPAWN_HEIGHT_BITS, 0, 0, 0, 0, 0);
    out.push(position);
    assert(rows(out@) =~= before + seq![spawn_position_frame()]);
    Ok(out)
}

/// When the chunks have no frames, the reason is one that ends the
/// connection.
pub proof fn lemma_chunk_frames_errors(chunks: Seq<Chunk>)
    ensures
        chunk_frames(chunks) matches Err(e) ==> e.fatal(),
    decreases chunks.len(),
{
    if chunks.len() > 0 {
        lemma_chunk_frames_errors(chunks.drop_last());
    }
}

/// Where a front part of the chunks has no frames, the whole has none, and
/// for the same reason.
proof fn lemma_chunk_frames_prefix(chunks: Seq<Chunk>, k: int)
    requires
        0 <= k <= chunks.len(),
        chunk_frames(chunks.take(k)) is Err,
    ensures
        chunk_frames(chunks) == chunk_frames(chunks.take(k)),
    decreases chunks.len(),
{
    if k < chunks.len() {
        let shorter = chunks.drop_last();
        assert(shorter.take(k) =~= chunks.take(k));
        lemma_chunk_frames_prefix(shorter, k);
    } else {
        assert(chunks.take(k) =~= chunks);
    }
}

} // verus!
