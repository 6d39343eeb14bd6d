//! Wire protocol core of a game-server endpoint: the variable-length integer
//! codec, the packet buffer, stream de-framing, the per-connection protocol
//! state machine and the connection registry.

pub mod buffer;
pub mod chunk;
pub mod codec;
pub mod config;
pub mod connection;
pub mod context;
pub mod error;
pub mod frame;
pub mod packet_manager;
pub mod packets;
pub mod play;
pub mod registry;
pub mod state;
pub mod status;
pub mod structs;
pub mod text;
pub mod varint;
pub mod wire;
