//! One client's session: its identity, its protocol state, the bytes that
//! have arrived and the frames that wait to be sent.
//!
//! The connection decides; it does no input or output itself. Whoever owns
//! the transport hands over the bytes that arrived, and writes out the
//! frames that the connection has queued, in order.

use vstd::prelude::*;
use crate::context::ServerContext;
use crate::error::ProtocolError;
use crate::frame::{parse_frame, Frame, FrameCodec, Framing, MAX_FRAME_LENGTH};
use crate::packet_manager::{frame_bytes, string_field};
use crate::packets::{
    handle_chat, handle_pong, handshake_outcome, login_outcome, pong_outcome, HandshakePacket,
    PlayerJoinPacket,
};
use crate::play::{keep_alive_frame, lemma_chunk_frames_errors, rows, DEFAULT_SESSION_UUID};
use crate::state::{
    dispatch, packet_kind, ConnectionState, PacketKind, HANDSHAKE_PACKET, KEEP_ALIVE_PACKET,
    STATUS_RESPONSE_PACKET,
};
use crate::structs::handshake_fields;
use crate::status::{status_fits, status_frame, status_payload};
use crate::wire::long_bytes;

verus! {

/// The part of a connection that handlers change.
pub struct Session {
    pub state: ConnectionState,
    pub player_uuid: Option<u128>,
    /// The frames that wait to be sent, oldest first.
    pub queue: Seq<Seq<u8>>,
}

/// The identity under which a session logs in: the one that the connection
/// was given, or the default.
pub open spec fn session_uuid(player_uuid: Option<u128>) -> u128 {
    match player_uuid {
        Some(uuid) => uuid,
        None => DEFAULT_SESSION_UUID,
    }
}

/// What one frame does to a session: the session afterwards, and the
/// error, if there is one, that ends the connection. A frame that fails
/// leaves the session as it was. A frame that no handler is bound to is
/// skipped.
#[verifier::opaque]
pub open spec fn step(s: Session, packet_id: i32, payload: Seq<u8>, ctx: ServerContext) -> (
    Session,
    Option<ProtocolError>,
) {
    match packet_kind(s.state, packet_id) {
        PacketKind::Unknown => (s, None),
        PacketKind::Handshake => match handshake_outcome(payload) {
            Ok(target) => (
                Session { state: target, player_uuid: s.player_uuid, queue: s.queue },
                None,
            ),
            Err(e) => (s, Some(e)),
        },
        PacketKind::StatusRequest => if status_fits(
            ctx.max_players as nat,
            ctx.online as nat,
            ctx.description@,
        ) {
            (
                Session {
                    state: s.state,
                    player_uuid: s.player_uuid,
                    queue: s.queue.push(
                        frame_bytes(
                            STATUS_RESPONSE_PACKET,
                            status_payload(
                                ctx.max_players as nat,
                                ctx.online as nat,
                                ctx.description@,
                            ),
                        ),
                    ),
                },
                None,
            )
        } else {
            (s, Some(ProtocolError::FrameTooLarge))
        },
        PacketKind::Ping => match pong_outcome(payload) {
            Ok(frame) => (
                Session { state: s.state, player_uuid: s.player_uuid, queue: s.queue.push(frame) },
                None,
            ),
            Err(e) => (s, Some(e)),
        },
        PacketKind::LoginStart => match login_outcome(
            payload,
            session_uuid(s.player_uuid),
            ctx.world.dimension_codec@,
            ctx.world.chunks@,
        ) {
            Ok(frames) => (
                Session {
                    state: ConnectionState::Play,
                    player_uuid: Some(session_uuid(s.player_uuid)),
                    queue: s.queue + frames,
                },
                None,
            ),
            Err(e) => (s, Some(e)),
        },
        PacketKind::ChatMessage => match string_field(payload) {
            Ok(_) => (s, None),
            Err(e) => (s, Some(e)),
        },
    }
}

/// What the bytes collected so far do to a session: every complete frame
/// at their front is handled, in the order of arrival, until the bytes run
/// out, a frame fails, or the bytes cannot become a frame. Gives the
/// session afterwards, the bytes that are left, and the error, if any.
#[verifier::opaque]
pub open spec fn run(s: Session, buffered: Seq<u8>, ceiling: nat, ctx: ServerContext) -> (
    Session,
    Seq<u8>,
    Option<ProtocolError>,
)
    decreases buffered.len(),
{
    match parse_frame(buffered, ceiling) {
        Framing::NeedMore => (s, buffered, None),
        Framing::Failed(e) => (s, buffered, Some(e)),
        Framing::Complete { packet_id, payload, consumed } => {
            if 1 <= consumed <= buffered.len() {
                let rest = buffered.skip(consumed as int);
                let (next, failure) = step(s, packet_id, payload, ctx);
                match failure {
                    Some(e) => (next, rest, Some(e)),
                    None => run(next, rest, ceiling, ctx),
                }
            } else {
                (s, buffered, None)
            }
        },
    }
}

/// The first frame, if there is one, and then the rest: how [`run`] goes
/// on from the bytes that it is given.
pub proof fn lemma_run_unfold(s: Session, buffered: Seq<u8>, ceiling: nat, ctx: ServerContext)
    ensures
        run(s, buffered, ceiling, ctx) == match parse_frame(buffered, ceiling) {
            Framing::NeedMore => (s, buffered, None::<ProtocolError>),
            Framing::Failed(e) => (s, buffered, Some(e)),
            Framing::Complete { packet_id, payload, consumed } => {
                if 1 <= consumed <= buffered.len() {
                    let rest = buffered.skip(consumed as int);
                    let (next, failure) = step(s, packet_id, payload, ctx);
                    match failure {
                        Some(e) => (next, rest, Some(e)),
                        None => run(next, rest, ceiling, ctx),
                    }
                } else {
                    (s, buffered, None::<ProtocolError>)
                }
            },
        },
{
    reveal(run);
}

/// The handshake decides where a session goes. Before the handshake, a
/// handshake that asks for state 1 leads to `Status` and one that asks for
/// state 2 leads to `Login`; one that asks for anything else is an
/// `IllegalStateTransition` and leaves the session where it was. Nothing
/// is queued either way.
pub proof fn lemma_handshake_transition(s: Session, payload: Seq<u8>, ctx: ServerContext)
    requires
        s.state == ConnectionState::Unknown || s.state == ConnectionState::Handshake,
        handshake_fields(payload) is Ok,
    ensures
        ({
            let asked = handshake_fields(payload)->Ok_0.next_state.value;
            let after = step(s, HANDSHAKE_PACKET, payload, ctx);
            &&& asked == 1 ==> after == (
                Session {
                    state: ConnectionState::Status,
                    player_uuid: s.player_uuid,
                    queue: s.queue,
                },
                None::<ProtocolError>,
            )
            &&& asked == 2 ==> after == (
                Session {
                    state: ConnectionState::Login,
                    player_uuid: s.player_uuid,
                    queue: s.queue,
                },
                None::<ProtocolError>,
            )
            &&& asked != 1 && asked != 2 ==> after == (
                s,
                Some(ProtocolError::IllegalStateTransition),
            )
        }),
{
    reveal(step);
}

/// A packet type that the table does not hold for the current state is
/// skipped: the session stays as it is and the connection stays open.
pub proof fn lemma_unknown_packet_is_skipped(
    s: Session,
    packet_id: i32,
    payload: Seq<u8>,
    ctx: ServerContext,
)
    requires
        packet_kind(s.state, packet_id) == PacketKind::Unknown,
    ensures
        step(s, packet_id, payload, ctx) == (s, None::<ProtocolError>),
{
    reveal(step);
}

/// No frame leads out of `Play`.
pub proof fn lemma_play_is_final(s: Session, packet_id: i32, payload: Seq<u8>, ctx: ServerContext)
    requires
        s.state == ConnectionState::Play,
    ensures
        step(s, packet_id, payload, ctx).0.state == ConnectionState::Play,
{
    reveal(step);
}

/// A frame that fails leaves the session as it was, and a frame never
/// takes anything out of the queue.
pub proof fn lemma_step_keeps_the_queue(
    s: Session,
    packet_id: i32,
    payload: Seq<u8>,
    ctx: ServerContext,
)
    ensures
        step(s, packet_id, payload, ctx).1 is Some ==> step(s, packet_id, payload, ctx).0 == s,
        s.queue.is_prefix_of(step(s, packet_id, payload, ctx).0.queue),
{
    reveal(step);
}

/// Every error of a frame ends the connection: a handler never asks for
/// more bytes and never reports an unknown packet type.
pub proof fn lemma_step_errors_are_fatal(
    s: Session,
    packet_id: i32,
    payload: Seq<u8>,
    ctx: ServerContext,
)
    ensures
        step(s, packet_id, payload, ctx).1 matches Some(e) ==> e.fatal(),
{
    reveal(step);
    lemma_chunk_frames_errors(ctx.world.chunks@);
}

/// Every error of [`run`] ends the connection. Bytes that are not a whole
/// frame yet are no error: they wait for more.
pub proof fn lemma_run_errors_are_fatal(
    s: Session,
    buffered: Seq<u8>,
    ceiling: nat,
    ctx: ServerContext,
)
    ensures
        run(s, buffered, ceiling, ctx).2 matches Some(e) ==> e.fatal(),
    decreases buffered.len(),
{
    lemma_run_unfold(s, buffered, ceiling, ctx);
    match parse_frame(buffered, ceiling) {
        Framing::Complete { packet_id, payload, consumed } => {
            if 1 <= consumed <= buffered.len() {
                lemma_step_errors_are_fatal(s, packet_id, payload, ctx);
                let next = step(s, packet_id, payload, ctx).0;
                if step(s, packet_id, payload, ctx).1 is None {
                    lemma_run_errors_are_fatal(next, buffered.skip(consumed as int), ceiling, ctx);
                }
            }
        },
        _ => {},
    }
}

/// One client's session.
pub struct Connection {
    /// The identity of the connection in the registry.
    pub id: u32,
    /// The identity of the player, once there is one.
    pub player_uuid: Option<u128>,
    /// The protocol state.
    pub state: ConnectionState,
    /// The frames that wait to be sent, oldest first.
    pub send_queue: Vec<Vec<u8>>,
    /// The bytes that have arrived, and the ceiling on frame lengths.
    pub codec: FrameCodec,
}

impl Connection {
    /// The frames that wait to be sent, oldest first.
    pub open spec fn queued(&self) -> Seq<Seq<u8>> {
        rows(self.send_queue@)
    }

    /// The bytes that have arrived and belong to no frame handled yet.
    pub open spec fn buffered(&self) -> Seq<u8> {
        self.codec.buffered()
    }

    /// The largest declared frame length that is accepted.
    pub open spec fn ceiling(&self) -> usize {
        self.codec.limit()
    }

    /// The part of the connection that handlers change.
    pub open spec fn session(&self) -> Session {
        Session { state: self.state, player_uuid: self.player_uuid, queue: self.queued() }
    }

    /// A connection that has just been accepted, with the usual ceiling on
    /// frame lengths.
    pub fn new(id: u32, player_uuid: Option<u128>) -> (r: Self)
        ensures
            r.id == id,
            r.player_uuid == player_uuid,
            r.state == ConnectionState::Unknown,
            r.queued() == Seq::<Seq<u8>>::empty(),
            r.buffered() == Seq::<u8>::empty(),
            r.ceiling() == MAX_FRAME_LENGTH,
    {
        Self::with_ceiling(id, player_uuid, MAX_FRAME_LENGTH)
    }

    /// A connection that has just been accepted, with a ceiling of its own
    /// on frame lengths.
    pub fn with_ceiling(id: u32, player_uuid: Option<u128>, ceiling: usize) -> (r: Self)
        ensures
            r.id == id,
            r.player_uuid == player_uuid,
            r.state == ConnectionState::Unknown,
            r.queued() == Seq::<Seq<u8>>::empty(),
            r.buffered() == Seq::<u8>::empty(),
            r.ceiling() == ceiling,
    {
        let r = Connection {
            id,
            player_uuid,
            state: ConnectionState::Unknown,
            send_queue: Vec::new(),
            codec: FrameCodec::new(ceiling),
        };
        assert(r.queued() =~= Seq::<Seq<u8>>::empty());
        r
    }

    /// Starts the session: the connection now waits for the handshake.
    pub fn start_connection(&mut self)
        ensures
            final(self).state == ConnectionState::Handshake,
            final(self).id == old(self).id,
            final(self).player_uuid == old(self).player_uuid,
            final(self).queued() == old(self).queued(),
            final(self).buffered() == old(self).buffered(),
            final(self).ceiling() == old(self).ceiling(),
    {
        self.state = ConnectionState::Handshake;
    }

    /// Puts a frame at the end of the queue of frames to be sent.
    pub fn push_to_queue(&mut self, packet: Vec<u8>)
        ensures
            final(self).queued() == old(self).queued().push(packet@),
            final(self).id == old(self).id,
            final(self).player_uuid == old(self).player_uuid,
            final(self).state == old(self).state,
            final(self).buffered() == old(self).buffered(),
            final(self).ceiling() == old(self).ceiling(),
    {
        self.send_queue.push(packet);
        assert(self.queued() =~= old(self).queued().push(packet@));
    }

    /// Hands over the frames that wait to be sent, oldest first, and
    /// leaves the queue empty.
    pub fn take_queued(&mut self) -> (r: Vec<Vec<u8>>)
        ensures
            rows(r@) == old(self).queued(),
            final(self).queued() == Seq::<Seq<u8>>::empty(),
            final(self).id == old(self).id,
            final(self).player_uuid == old(self).player_uuid,
            final(self).state == old(self).state,
            final(self).buffered() == old(self).buffered(),
            final(self).ceiling() == old(self).ceiling(),
    {
        let mut out: Vec<Vec<u8>> = Vec::new();
        std::mem::swap(&mut out, &mut self.send_queue);
        assert(self.queued() =~= Seq::<Seq<u8>>::empty());
        out
    }

    /// Handles one frame: looks its type up in the table for the current
    /// state and lets the handler read the payload. What the handler
    /// answers with joins the queue.
    pub fn handle_frame(&mut self, frame: Frame, ctx: &ServerContext) -> (r: Result<
        (),
        ProtocolError,
    >)
        ensures
            final(self).session() == step(
                old(self).session(),
                frame.packet_id,
                frame.payload@,
                *ctx,
            ).0,
            r == match step(old(self).session(), frame.packet_id, frame.payload@, *ctx).1 {
                Some(e) => Err::<(), ProtocolError>(e),
                None => Ok::<(), ProtocolError>(()),
            },
            final(self).id == old(self).id,
            final(self).buffered() == old(self).buffered(),
            final(self).ceiling() == old(self).ceiling(),
    {
        proof {
            reveal(step);
        }
        let kind = dispatch(self.state, frame.packet_id);
        let mut packet = frame.into_packet();
        match kind {
            PacketKind::Unknown => Ok(()),
            PacketKind::Handshake => {
                match HandshakePacket::new().handle(&mut packet, &mut self.state) {
                    Ok(_) => Ok(()),
                    Err(e) => Err(e),
                }
            },
            PacketKind::StatusRequest => {
                match status_frame(ctx.max_players, ctx.online, ctx.description.as_str()) {
                    Ok(response) => {
                        self.push_to_queue(response);
                        Ok(())
                    },
                    Err(e) => Err(e),
                }
            },
            PacketKind::Ping => {
                match handle_pong(&mut packet) {
                    Ok(response) => {
                        self.push_to_queue(response);
                        Ok(())
                    },
                    Err(e) => Err(e),
                }
            },
            PacketKind::LoginStart => {
                let uuid: u128 = match self.player_uuid {
                    Some(uuid) => uuid,
                    None => DEFAULT_SESSION_UUID,
                };
                match PlayerJoinPacket::new().handle(
                    &mut packet,
                    uuid,
                    &ctx.world,
                    &mut self.state,
                ) {
                    Ok(mut frames) => {
                        let ghost before = self.queued();
                        let ghost added = rows(frames@);
                        self.player_uuid = Some(uuid);
                        self.send_queue.append(&mut frames);
                        assert(self.queued() =~= before + added);
                        Ok(())
                    },
                    Err(e) => Err(e),
                }
            },
            PacketKind::ChatMessage => {
                match handle_chat(&mut packet) {
                    Ok(_) => Ok(()),
                    Err(e) => Err(e),
                }
            },
        }
    }

    /// Takes in bytes that the transport delivered and handles every frame
    /// that is complete by now, in the order of arrival. An error ends the
    /// connection: the caller closes the transport and takes the
    /// connection out of the registry.
    pub fn receive(&mut self, data: &[u8], ctx: &ServerContext) -> (r: Result<(), ProtocolError>)
        ensures
            final(self).session() == run(
                old(self).session(),
                old(self).buffered() + data@,
                old(self).ceiling() as nat,
                *ctx,
            ).0,
            final(self).buffered() == run(
                old(self).session(),
                old(self).buffered() + data@,
                old(self).ceiling() as nat,
                *ctx,
            ).1,
            r == match run(
                old(self).session(),
                old(self).buffered() + data@,
                old(self).ceiling() as nat,
                *ctx,
            ).2 {
                Some(e) => Err::<(), ProtocolError>(e),
                None => Ok::<(), ProtocolError>(()),
            },
            final(self).id == old(self).id,
            final(self).ceiling() == old(self).ceiling(),
    {
        self.codec.feed(data);
        let ghost goal = run(
            old(self).session(),
            old(self).buffered() + data@,
            old(self).ceiling() as nat,
            *ctx,
        );
        loop
            invariant
                self.id == old(self).id,
                self.ceiling() == old(self).ceiling(),
                goal == run(self.session(), self.buffered(), self.ceiling() as nat, *ctx),
                goal == run(
                    old(self).session(),
                    old(self).buffered() + data@,
                    old(self).ceiling() as nat,
                    *ctx,
                ),
            decreases self.buffered().len(),
        {
            proof {
                lemma_run_unfold(self.session(), self.buffered(), self.ceiling() as nat, *ctx);
            }
            match self.codec.next_frame() {
                Err(e) => {
                    return Err(e);
                },
                Ok(None) => {
                    return Ok(());
                },
                Ok(Some(frame)) => {
                    match self.handle_frame(frame, ctx) {
                        Ok(_) => {},
                        Err(e) => {
                            return Err(e);
                        },
                    }
                },
            }
        }
    }

    /// The keep-alive tick: in `Play` a keep-alive frame joins the queue;
    /// in every other state nothing happens. Says whether a frame was
    /// queued.
    pub fn keep_alive(&mut self) -> (r: bool)
        ensures
            r == (old(self).state == ConnectionState::Play),
            final(self).queued() == if r {
                old(self).queued().push(frame_bytes(KEEP_ALIVE_PACKET, long_bytes(0)))
            } else {
                old(self).queued()
            },
            final(self).id == old(self).id,
            final(self).player_uuid == old(self).player_uuid,
            final(self).state == old(self).state,
            final(self).buffered() == old(self).buffered(),
            final(self).ceiling() == old(self).ceiling(),
    {
        match self.state {
            ConnectionState::Play => {
                self.push_to_queue(keep_alive_frame(0));
                true
            },
            _ => false,
        }
    }

    /// The stream has ended. Bytes of a frame that never became complete
    /// are a `TransportError`; a stream that ends between frames ends
    /// well.
    pub fn end_of_stream(&self) -> (r: Result<(), ProtocolError>)
        ensures
            r == if self.buffered().len() == 0 {
                Ok::<(), ProtocolError>(())
            } else {
                Err::<(), ProtocolError>(ProtocolError::TransportError)
            },
    {
        if self.codec.buffered_len() == 0 {
            Ok(())
        } else {
            Err(ProtocolError::TransportError)
        }
    }
}

} // verus!
