//! Chunks of the world, as the world data provider hands them over, and
//! the frames that carry them to a client.

use vstd::prelude::*;
use crate::error::ProtocolError;
use crate::packet_manager::{field_error, frame_bytes, frame_fits, PacketManager};
use crate::state::CHUNK_DATA_PACKET;
use crate::varint::varint_decode;
use crate::wire::int_bytes;

verus! {

/// One chunk: its coordinates and the blob that the provider serialized.
#[derive(Clone, Debug)]
pub struct Chunk {
    pub x: i32,
    pub z: i32,
    pub data: Vec<u8>,
}

/// What is left of a chunk blob once its own header is taken off. The
/// header is two variable-length integers and two 32-bit integers.
pub open spec fn chunk_body(blob: Seq<u8>) -> Result<Seq<u8>, ProtocolError> {
    match varint_decode(blob) {
        Err(e) => Err(field_error(e)),
        Ok(first) => {
            let after_first = blob.skip(first.len as int);
            match varint_decode(after_first) {
                Err(e) => Err(field_error(e)),
                Ok(second) => {
                    let after_second = after_first.skip(second.len as int);
                    if after_second.len() < 8 {
                        Err(ProtocolError::BufferUnderflow)
                    } else {
                        Ok(after_second.skip(8))
                    }
                },
            }
        },
    }
}

/// The payload of a chunk-data frame: the two coordinates that the client
/// expects, then the chunk's data.
pub open spec fn chunk_payload(x: i32, z: i32, body: Seq<u8>) -> Seq<u8> {
    int_bytes(x) + int_bytes(z) + body
}

/// The chunk-data frame for a chunk, or why there is none.
pub open spec fn chunk_frame(x: i32, z: i32, blob: Seq<u8>) -> Result<Seq<u8>, ProtocolError> {
    match chunk_body(blob) {
        Err(e) => Err(e),
        Ok(body) => if frame_fits(CHUNK_DATA_PACKET, chunk_payload(x, z, body)) {
            Ok(frame_bytes(CHUNK_DATA_PACKET, chunk_payload(x, z, body)))
        } else {
            Err(ProtocolError::FrameTooLarge)
        },
    }
}

/// The radius, in chunks, of the square of chunks that a player is sent
/// on entering the game: the chunk at the origin and this many around it
/// on each side.
pub const CHUNK_RADIUS: u8 = 0;

/// The coordinates of the chunks within `radius` of the origin, row by
/// row: `x` goes from `-radius` to `radius`, and for each `x` so does `z`.
pub open spec fn square_around_origin(radius: u8) -> Seq<(i32, i32)> {
    let side = 2 * radius + 1;
    Seq::new(
        (side * side) as nat,
        |i: int| ((i / side - radius) as i32, (i % side - radius) as i32),
    )
}

/// Lists the coordinates of the chunks within `radius` of the origin.
pub fn chunk_coordinates(radius: u8) -> (r: Vec<(i32, i32)>)
    ensures
        r@ == square_around_origin(radius),
{
    let reach: i32 = radius as i32;
    let ghost side: int = 2 * radius + 1;
    let mut out: Vec<(i32, i32)> = Vec::new();
    let mut x: i32 = -reach;
    proof {
        assert((x + reach) * side == 0) by (nonlinear_arith)
            requires
                x + reach == 0,
        ;
    }
    while x <= reach
        invariant
            reach == radius,
            side == 2 * radius + 1,
            -reach <= x <= reach + 1,
            out@.len() == (x + reach) * side,
            forall|i: int|
                0 <= i < out@.len() && i < side * side ==> out@[i] == square_around_origin(
                    radius,
                )[i],
        decreases reach + 1 - x,
    {
        let mut z: i32 = -reach;
        while z <= reach
            invariant
                reach == radius,
                side == 2 * radius + 1,
                -reach <= x <= reach,
                -reach <= z <= reach + 1,
                out@.len() == (x + reach) * side + (z + reach),
                forall|i: int|
                0 <= i < out@.len() && i < side * side ==> out@[i] == square_around_origin(
                    radius,
                )[i],
            decreases reach + 1 - z,
        {
            proof {
                let i: int = (x + reach) * side + (z + reach);
                assert(i / side == x + reach && i % side == z + reach) by (nonlinear_arith)
                    requires
                        i == (x + reach) * side + (z + reach),
                        0 <= z + reach < side,
                        0 <= x + reach,
                ;
                assert(i < side * side) by (nonlinear_arith)
                    requires
                        i == (x + reach) * side + (z + reach),
                        0 <= z + reach < side,
                        0 <= x + reach < side,
                ;
            }
            out.push((x, z));
            z = z + 1;
        }
        proof {
            assert((x + reach) * side + side == (x + 1 + reach) * side) by (nonlinear_arith);
        }
        x = x + 1;
    }
    proof {
        assert((reach + 1 + reach) * side == side * side) by (nonlinear_arith)
            requires
                side == 2 * reach + 1,
        ;
        assert(out@ =~= square_around_origin(radius));
    }
    out
}

impl Chunk {
    /// A chunk at `(x, z)` with the blob `data`.
    pub fn new(x: i32, z: i32, data: Vec<u8>) -> (r: Self)
        ensures
            r.x == x,
            r.z == z,
            r.data == data,
    {
        Chunk { x, z, data }
    }

    /// Builds the chunk-data frame: the blob's own header is taken off and
    /// the chunk's coordinates are put in its place. A blob too short for
    /// its header is an underflow.
    pub fn frame(&self) -> (r: Result<Vec<u8>, ProtocolError>)
        ensures
            match chunk_frame(self.x, self.z, self.data@) {
                Ok(bytes) => r matches Ok(f) && f@ == bytes,
                Err(e) => r matches Err(f) && f == e,
            },
    {
        let mut blob = PacketManager::from_bytes(self.data.as_slice());
        match blob.read_var_int() {
            Ok(_) => {},
            Err(e) => {
                return Err(e);
            },
        }
        match blob.read_var_int() {
            Ok(_) => {},
            Err(e) => {
                return Err(e);
            },
        }
        match blob.read_int() {
            Ok(_) => {},
            Err(e) => {
                return Err(e);
            },
        }
        match blob.read_int() {
            Ok(_) => {},
            Err(e) => {
                return Err(e);
            },
        }
        let body = blob.to_vec();
        proof {
            let first = varint_decode(self.data@)->Ok_0;
            let after_first = self.data@.skip(first.len as int);
            let second = varint_decode(after_first)->Ok_0;
            let after_second = after_first.skip(second.len as int);
            assert(body@ =~= after_second.skip(8));
        }
        let mut packet = PacketManager::empty();
        packet.write_int(self.x);
        packet.write_int(self.z);
        packet.write_bytes(body.as_slice());
        assert(packet@ =~= chunk_payload(self.x, self.z, body@));
        packet.try_build_packet(CHUNK_DATA_PACKET)
    }
}

} // verus!
