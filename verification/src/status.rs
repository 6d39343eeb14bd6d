//! The status document: what the server says of itself to a client that
//! asks, as JSON in a string field.

use vstd::prelude::*;
use crate::error::ProtocolError;
use crate::packet_manager::{frame_bytes, frame_fits, string_field_bytes, PacketManager};
use crate::state::STATUS_RESPONSE_PACKET;
use crate::text::{decimal_text, push_decimal};
use vstd::utf8::encode_utf8;

verus! {

/// The protocol number that the server speaks.
pub const PROTOCOL_VERSION: u32 = 754;

/// The JSON string literal for a text, quotes included, as `serde_json`
/// writes it.
pub uninterp spec fn json_string_literal(text: Seq<char>) -> Seq<char>;

/// `serde_json::to_string` on a string slice: the text as a JSON string
/// literal. The call always gives one: the serializer has no error of its
/// own for a string, only those of its writer, and here it writes into a
/// vector in memory. The error type of the call is dropped.
#[verifier::external_body]
pub(crate) fn json_quote(text: &str) -> (r: Option<String>)
    ensures
        r is Some,
        r matches Some(s) ==> s@ == json_string_literal(text@),
{
    match serde_json::to_string(text) {
        Ok(s) => Some(s),
        Err(_) => None,
    }
}

/// The status document for the given player counts and description, the
/// latter already a JSON string literal.
pub open spec fn status_document(max: nat, online: nat, description: Seq<char>) -> Seq<char> {
    "{\"version\":{\"name\":\"1.16.5\",\"protocol\":"@ + decimal_text(PROTOCOL_VERSION as nat)
        + "},\"players\":{\"max\":"@ + decimal_text(max) + ",\"online\":"@ + decimal_text(online)
        + "},\"description\":{\"text\":"@ + description + "}}"@
}

/// Writes the status document. `description` is the description as a JSON
/// string literal.
pub fn status_json(max_players: u32, online: u32, description: &str) -> (r: String)
    ensures
        r@ == status_document(max_players as nat, online as nat, description@),
{
    let mut out: String = String::from_str("{\"version\":{\"name\":\"1.16.5\",\"protocol\":");
    push_decimal(&mut out, PROTOCOL_VERSION);
    out.append("},\"players\":{\"max\":");
    push_decimal(&mut out, max_players);
    out.append(",\"online\":");
    push_decimal(&mut out, online);
    out.append("},\"description\":{\"text\":");
    out.append(description);
    out.append("}}");
    out
}

/// The payload of the status frame: the document as a string field.
pub open spec fn status_payload(max: nat, online: nat, description: Seq<char>) -> Seq<u8> {
    string_field_bytes(status_document(max, online, description))
}

/// Builds the status frame from the player counts and the description as a
/// JSON string literal. Refuses with `FrameTooLarge` a document that does
/// not fit a frame.
pub fn status_frame(max_players: u32, online: u32, description: &str) -> (r: Result<
    Vec<u8>,
    ProtocolError,
>)
    ensures
        match r {
            Ok(frame) => frame@ == frame_bytes(
                STATUS_RESPONSE_PACKET,
                status_payload(max_players as nat, online as nat, description@),
            ),
            Err(e) => e == ProtocolError::FrameTooLarge,
        },
        r is Ok <==> status_fits(max_players as nat, online as nat, description@),
{
    let document = status_json(max_players, online, description);
    let mut response = PacketManager::empty();
    match response.try_write_string(document.as_str()) {
        Ok(_) => {},
        Err(e) => {
            return Err(e);
        },
    }
    assert(response@ =~= status_payload(max_players as nat, online as nat, description@));
    response.try_build_packet(STATUS_RESPONSE_PACKET)
}

/// Whether the status document fits a frame: the text fits the length
/// prefix of its field, and the field fits the length prefix of the frame.
pub open spec fn status_fits(max: nat, online: nat, description: Seq<char>) -> bool {
    &&& encode_utf8(status_document(max, online, description)).len() <= i32::MAX
    &&& frame_fits(STATUS_RESPONSE_PACKET, status_payload(max, online, description))
}

} // verus!
