//! The error taxonomy shared by every layer of the protocol core.

use vstd::prelude::*;

verus! {

/// Everything that can go wrong while bytes are turned into packets.
#[derive(Clone, Copy, Debug, PartialEq, Eq, Structural)]
pub enum ProtocolError {
    /// More bytes are needed before a value can be decoded. A scheduling
    /// signal rather than a fault.
    Incomplete,
    /// A variable-length integer ran past its group limit.
    MalformedVarInt,
    /// A frame declared a length above the configured ceiling.
    FrameTooLarge,
    /// A string field did not hold valid UTF-8, or a textual value was
    /// not in its expected form.
    InvalidEncoding,
    /// A handler asked for more bytes than the frame holds.
    BufferUnderflow,
    /// The peer asked for a state the protocol does not allow from here.
    IllegalStateTransition,
    /// The transport failed.
    TransportError,
    /// No handler is bound to the packet type in the current state.
    UnknownPacketType,
}

impl ProtocolError {
    /// Whether the error ends the connection. `Incomplete` only asks for
    /// more bytes and an unknown packet type is skipped; everything else
    /// closes the connection.
    pub open spec fn fatal(self) -> bool {
        !(self is Incomplete) && !(self is UnknownPacketType)
    }

    /// Executable form of [`ProtocolError::fatal`].
    pub fn is_fatal(&self) -> (r: bool)
        ensures
            r == self.fatal(),
    {
        match self {
            ProtocolError::Incomplete => false,
            ProtocolError::UnknownPacketType => false,
            _ => true,
        }
    }

    /// A short human-readable description, fit for a log line.
    pub fn message(&self) -> (r: &'static str)
        ensures
            r@ == self.message_text(),
    {
        match self {
            ProtocolError::Incomplete => "more bytes are needed",
            ProtocolError::MalformedVarInt => "variable-length integer is too long",
            ProtocolError::FrameTooLarge => "frame exceeds the configured ceiling",
            ProtocolError::InvalidEncoding => "invalid encoding",
            ProtocolError::BufferUnderflow => "buffer underflow",
            ProtocolError::IllegalStateTransition => "illegal state transition",
            ProtocolError::TransportError => "transport failure",
            ProtocolError::UnknownPacketType => "unknown packet type",
        }
    }

    /// The text that [`ProtocolError::message`] returns.
    pub open spec fn message_text(self) -> Seq<char> {
        match self {
            ProtocolError::Incomplete => "more bytes are needed"@,
            ProtocolError::MalformedVarInt => "variable-length integer is too long"@,
            ProtocolError::FrameTooLarge => "frame exceeds the configured ceiling"@,
            ProtocolError::InvalidEncoding => "invalid encoding"@,
            ProtocolError::BufferUnderflow => "buffer underflow"@,
            ProtocolError::IllegalStateTransition => "illegal state transition"@,
            ProtocolError::TransportError => "transport failure"@,
            ProtocolError::UnknownPacketType => "unknown packet type"@,
        }
    }
}

} // verus!
