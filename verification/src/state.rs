//! The protocol states of a connection and the table that binds packet
//! types to handlers.

use vstd::prelude::*;
use crate::error::ProtocolError;

verus! {

/// Client to server, before the handshake: the handshake itself.
pub const HANDSHAKE_PACKET: i32 = 0x00;

/// Client to server, in `Status`: the request for the server's status.
pub const STATUS_REQUEST_PACKET: i32 = 0x00;

/// Both ways, in `Status`: the ping and the pong that answers it.
pub const PONG_PACKET: i32 = 0x01;

/// Client to server, in `Login`: the start of a login.
pub const LOGIN_START_PACKET: i32 = 0x00;

/// Client to server, in `Play`: a chat message.
pub const CHAT_MESSAGE_PACKET: i32 = 0x03;

/// Server to client: the status document.
pub const STATUS_RESPONSE_PACKET: i32 = 0x00;

/// Server to client: the login has succeeded.
pub const LOGIN_SUCCESS_PACKET: i32 = 0x02;

/// Server to client: a keep-alive.
pub const KEEP_ALIVE_PACKET: i32 = 0x1F;

/// Server to client: the data of one chunk.
pub const CHUNK_DATA_PACKET: i32 = 0x20;

/// Server to client: the player has joined the game.
pub const JOIN_GAME_PACKET: i32 = 0x24;

/// Server to client: where the player stands and looks.
pub const PLAYER_POSITION_PACKET: i32 = 0x34;

/// The phase of a session. It decides what a packet type means.
#[derive(Clone, Copy, Debug, PartialEq, Eq, Structural)]
pub enum ConnectionState {
    /// Accepted, not yet started.
    Unknown,
    /// Waiting for the handshake.
    Handshake,
    /// Answering status requests and pings.
    Status,
    /// Waiting for the start of a login.
    Login,
    /// In the game. Only a disconnect leads out of here.
    Play,
}

/// The handler that a packet is bound to.
#[derive(Clone, Copy, Debug, PartialEq, Eq, Structural)]
pub enum PacketKind {
    Handshake,
    StatusRequest,
    Ping,
    LoginStart,
    ChatMessage,
    /// Nothing is bound to the type in this state. The frame is skipped
    /// and the connection stays open.
    Unknown,
}

/// The table: which handler a packet type has in a state. A connection that
/// has not seen a handshake yet takes one whether it was started or not.
pub open spec fn packet_kind(state: ConnectionState, packet_id: i32) -> PacketKind {
    match state {
        ConnectionState::Unknown | ConnectionState::Handshake => if packet_id == HANDSHAKE_PACKET {
            PacketKind::Handshake
        } else {
            PacketKind::Unknown
        },
        ConnectionState::Status => if packet_id == STATUS_REQUEST_PACKET {
            PacketKind::StatusRequest
        } else if packet_id == PONG_PACKET {
            PacketKind::Ping
        } else {
            PacketKind::Unknown
        },
        ConnectionState::Login => if packet_id == LOGIN_START_PACKET {
            PacketKind::LoginStart
        } else {
            PacketKind::Unknown
        },
        ConnectionState::Play => if packet_id == CHAT_MESSAGE_PACKET {
            PacketKind::ChatMessage
        } else {
            PacketKind::Unknown
        },
    }
}

/// Looks a packet type up in the table.
pub fn dispatch(state: ConnectionState, packet_id: i32) -> (r: PacketKind)
    ensures
        r == packet_kind(state, packet_id),
{
    match state {
        ConnectionState::Unknown | ConnectionState::Handshake => {
            if packet_id == HANDSHAKE_PACKET {
                PacketKind::Handshake
            } else {
                PacketKind::Unknown
            }
        },
        ConnectionState::Status => {
            if packet_id == STATUS_REQUEST_PACKET {
                PacketKind::StatusRequest
            } else if packet_id == PONG_PACKET {
                PacketKind::Ping
            } else {
                PacketKind::Unknown
            }
        },
        ConnectionState::Login => {
            if packet_id == LOGIN_START_PACKET {
                PacketKind::LoginStart
            } else {
                PacketKind::Unknown
            }
        },
        ConnectionState::Play => {
            if packet_id == CHAT_MESSAGE_PACKET {
                PacketKind::ChatMessage
            } else {
                PacketKind::Unknown
            }
        },
    }
}

/// The state that a handshake asks for: 1 is `Status`, 2 is `Login`, and
/// every other number is a violation of the protocol.
pub open spec fn handshake_target(next_state: i32) -> Result<ConnectionState, ProtocolError> {
    if next_state == 1 {
        Ok(ConnectionState::Status)
    } else if next_state == 2 {
        Ok(ConnectionState::Login)
    } else {
        Err(ProtocolError::IllegalStateTransition)
    }
}

/// Executable form of [`handshake_target`].
pub fn next_state_of(next_state: i32) -> (r: Result<ConnectionState, ProtocolError>)
    ensures
        r == handshake_target(next_state),
{
    if next_state == 1 {
        Ok(ConnectionState::Status)
    } else if next_state == 2 {
        Ok(ConnectionState::Login)
    } else {
        Err(ProtocolError::IllegalStateTransition)
    }
}

} // verus!
