//! The messages of the handshake, field by field.

use vstd::prelude::*;
use crate::codec::Decode;
use crate::error::ProtocolError;
use crate::packet_manager::{
    field_error, frame_bytes, frame_fits, string_field, string_field_bytes, PacketManager,
};
use crate::varint::{varint_decode, VarInt};
use crate::wire::be_value;
use vstd::utf8::encode_utf8;

verus! {

/// What a client opens a session with.
#[derive(Debug)]
pub struct HandshakePacket {
    /// The protocol number that the client speaks.
    pub protocol_version: VarInt,
    /// The address that the client connected to.
    pub server_address: String,
    /// The port that the client connected to.
    pub server_port: u16,
    /// The state that the client asks for: 1 for status, 2 for login.
    pub next_state: VarInt,
}

/// The fields of a handshake as they stand in a payload.
pub struct HandshakeFields {
    pub protocol_version: VarInt,
    pub server_address: Seq<char>,
    pub server_port: u16,
    pub next_state: VarInt,
    /// The number of bytes that the four fields take together.
    pub width: nat,
}

/// Reads the fields of a handshake from the front of `bytes`, in order:
/// the protocol number, the address, the port, the state asked for.
pub open spec fn handshake_fields(bytes: Seq<u8>) -> Result<HandshakeFields, ProtocolError> {
    match varint_decode(bytes) {
        Err(e) => Err(field_error(e)),
        Ok(protocol_version) => {
            let after_version = bytes.skip(protocol_version.len as int);
            match string_field(after_version) {
                Err(e) => Err(e),
                Ok((server_address, address_width)) => {
                    let after_address = after_version.skip(address_width as int);
                    if after_address.len() < 2 {
                        Err(ProtocolError::BufferUnderflow)
                    } else {
                        let after_port = after_address.skip(2);
                        match varint_decode(after_port) {
                            Err(e) => Err(field_error(e)),
                            Ok(next_state) => Ok(
                                HandshakeFields {
                                    protocol_version,
                                    server_address,
                                    server_port: be_value(after_address.take(2)) as u16,
                                    next_state,
                                    width: (protocol_version.len + address_width + 2
                                        + next_state.len) as nat,
                                },
                            ),
                        }
                    }
                },
            }
        },
    }
}

impl HandshakePacket {
    /// Whether the packet holds exactly these fields.
    pub open spec fn matches_fields(self, fields: HandshakeFields) -> bool {
        &&& self.protocol_version == fields.protocol_version
        &&& self.server_address@ == fields.server_address
        &&& self.server_port == fields.server_port
        &&& self.next_state == fields.next_state
    }
}

impl Decode for HandshakePacket {
    open spec fn width(bytes: Seq<u8>) -> Result<nat, ProtocolError> {
        match handshake_fields(bytes) {
            Ok(fields) => Ok(fields.width),
            Err(e) => Err(e),
        }
    }

    open spec fn holds(bytes: Seq<u8>, value: HandshakePacket) -> bool {
        handshake_fields(bytes) matches Ok(fields) && value.matches_fields(fields)
    }

    /// Reads the four fields in order. When one of them cannot be read,
    /// none is taken.
    fn decode(packet: &mut PacketManager) -> (r: Result<HandshakePacket, ProtocolError>) {
        let total: usize = packet.len();
        let mut work = PacketManager::from_bytes(packet.as_slice());
        let protocol_version = match work.read_var_int() {
            Ok(v) => v,
            Err(e) => {
                return Err(e);
            },
        };
        let server_address = match work.read_string() {
            Ok(v) => v,
            Err(e) => {
                return Err(e);
            },
        };
        let server_port = match work.read_unsigned_short() {
            Ok(v) => v,
            Err(e) => {
                return Err(e);
            },
        };
        let next_state = match work.read_var_int() {
            Ok(v) => v,
            Err(e) => {
                return Err(e);
            },
        };
        packet.advance(total - work.len());
        Ok(HandshakePacket { protocol_version, server_address, server_port, next_state })
    }
}

/// The answer to a status request: a packet type and a JSON document.
#[derive(Debug)]
pub struct ClientHandshakeRequest {
    pub packet_id: VarInt,
    pub res_json: String,
}

impl ClientHandshakeRequest {
    /// The payload: the document as a string field.
    pub open spec fn payload(self) -> Seq<u8> {
        string_field_bytes(self.res_json@)
    }

    /// Whether the message fits a frame: the document fits the length
    /// prefix of its field, and the field fits the length prefix of the
    /// frame.
    pub open spec fn fits(self) -> bool {
        &&& encode_utf8(self.res_json@).len() <= i32::MAX
        &&& frame_fits(self.packet_id.value, self.payload())
    }

    /// The message as a frame: its fields in order, the packet type first,
    /// behind the length of them all. A message that does not fit a frame
    /// is refused with `FrameTooLarge`.
    pub fn encode(&self) -> (r: Result<Vec<u8>, ProtocolError>)
        ensures
            match r {
                Ok(frame) => frame@ == frame_bytes(self.packet_id.value, self.payload()),
                Err(e) => e == ProtocolError::FrameTooLarge,
            },
            r is Ok <==> self.fits(),
    {
        let mut packet = PacketManager::empty();
        match packet.try_write_string(self.res_json.as_str()) {
            Ok(_) => {},
            Err(e) => {
                return Err(e);
            },
        }
        assert(packet@ =~= self.payload());
        packet.try_build_packet(self.packet_id.value)
    }
}

} // verus!
