//! The registry of live connections: a table from connection identity to
//! connection, and a count of the connections that are live.
//!
//! The table is a `DashMap`, which is opaque to the verifier. Its contents
//! are named by [`registry_entries`], and the methods that the registry
//! calls are wrapped in functions whose contracts say, over that name, what
//! the methods do. Those contracts are taken from the crate's source and
//! are not proved here. The wrappers take the table by unique reference
//! where it changes, so that what is said of its contents stays true.

use vstd::prelude::*;
use dashmap::DashMap;
use crate::connection::{run, Connection};
use crate::context::ServerContext;
use crate::error::ProtocolError;
use crate::play::rows;
use crate::state::{ConnectionState, KEEP_ALIVE_PACKET};
use crate::packet_manager::frame_bytes;
use crate::wire::long_bytes;

verus! {

#[verifier::external_type_specification]
#[verifier::external_body]
#[verifier::reject_recursive_types(K)]
#[verifier::reject_recursive_types(V)]
#[verifier::reject_recursive_types(S)]
pub struct ExDashMap<K, V, S>(DashMap<K, V, S>);

/// The table of the registry: connections by identity.
pub type Table = DashMap<u32, Connection>;

/// The entries that a table holds.
pub uninterp spec fn registry_entries(table: Table) -> Map<u32, Connection>;

/// No entries.
pub open spec fn no_entries() -> Map<u32, Connection> {
    Map::empty()
}

/// `DashMap::new`: a table without entries.
#[verifier::external_body]
pub(crate) fn table_new() -> (table: Table)
    ensures
        registry_entries(table) == no_entries(),
{
    DashMap::new()
}

/// `DashMap::insert`: puts the value under the key and gives back the
/// value that was there before, if there was one.
#[verifier::external_body]
pub(crate) fn table_insert(table: &mut Table, key: u32, value: Connection) -> (r:
    Option<Connection>)
    ensures
        registry_entries(*final(table)) == registry_entries(*old(table)).insert(key, value),
        r == if registry_entries(*old(table)).dom().contains(key) {
            Some(registry_entries(*old(table))[key])
        } else {
            None
        },
{
    table.insert(key, value)
}

/// `DashMap::remove`: takes the entry under the key out and gives back its
/// value, if there was one.
#[verifier::external_body]
pub(crate) fn table_remove(table: &mut Table, key: u32) -> (r: Option<
    Connection,
>)
    ensures
        registry_entries(*final(table)) == registry_entries(*old(table)).remove(key),
        r == if registry_entries(*old(table)).dom().contains(key) {
            Some(registry_entries(*old(table))[key])
        } else {
            None
        },
{
    table.remove(&key).map(|entry| entry.1)
}

/// `DashMap::contains_key`: whether there is an entry under the key.
#[verifier::external_body]
pub(crate) fn table_contains(table: &Table, key: u32) -> (r: bool)
    ensures
        r == registry_entries(*table).dom().contains(key),
{
    table.contains_key(&key)
}

/// `rand::random` for `u32`: some number. Nothing is known of it.
#[verifier::external_body]
pub(crate) fn random_u32() -> u32 {
    rand::random::<u32>()
}

/// How often an identity is drawn again on a collision before the search
/// for a free one goes on in order.
pub const ID_REDRAWS: u32 = 16;

/// The candidate that is `steps` after `start`, going round at the end of
/// the 32-bit range.
pub open spec fn candidate(start: u32, steps: int) -> u32 {
    ((start + steps) % 0x1_0000_0000) as u32
}

/// What a connection wants done after it was handed bytes.
#[derive(Debug)]
pub struct Delivery {
    /// The frames to send, oldest first.
    pub frames: Vec<Vec<u8>>,
    /// The state that the connection is in now.
    pub state: ConnectionState,
}

/// The registry of live connections.
pub struct ConnectionManager {
    connections: Table,
    connection_count: u32,
}

impl ConnectionManager {
    /// The connections that are registered, by identity.
    pub closed spec fn entries(&self) -> Map<u32, Connection> {
        registry_entries(self.connections)
    }

    /// The count of live connections, as the counter holds it.
    pub closed spec fn count(&self) -> u32 {
        self.connection_count
    }

    /// Whether a connection is registered under `id`.
    pub open spec fn is_registered(&self, id: u32) -> bool {
        self.entries().dom().contains(id)
    }

    /// The invariant of the registry: every connection stands under its
    /// own identity, and the counter holds the number of connections. The
    /// counter is 32 bits wide and goes round where the number does not
    /// fit.
    pub open spec fn well_formed(&self) -> bool {
        &&& self.entries().dom().finite()
        &&& self.count() == self.entries().dom().len() % 0x1_0000_0000
        &&& forall|id: u32| self.is_registered(id) ==> (#[trigger] self.entries()[id]).id == id
    }

    /// An empty registry.
    pub fn new() -> (r: Self)
        ensures
            r.well_formed(),
            r.entries() == no_entries(),
            r.count() == 0,
    {
        ConnectionManager { connections: table_new(), connection_count: 0 }
    }

    /// Whether a connection is registered under `id`.
    pub fn contains(&self, id: u32) -> (r: bool)
        ensures
            r == self.is_registered(id),
    {
        table_contains(&self.connections, id)
    }

    /// The count of live connections.
    pub fn connection_count(&self) -> (r: u32)
        ensures
            r == self.count(),
    {
        self.connection_count
    }

    /// The first identity, from `start` on and going round at the end of
    /// the range, that no live connection has. There is none only when
    /// every identity is taken.
    pub fn first_free_from(&self, start: u32) -> (r: Option<u32>)
        ensures
            match r {
                Some(id) => {
                    &&& !self.is_registered(id)
                    &&& exists|steps: int|
                        {
                            &&& 0 <= steps < 0x1_0000_0000
                            &&& id == candidate(start, steps)
                            &&& forall|j: int|
                                0 <= j < steps ==> self.is_registered(
                                    #[trigger] candidate(start, j),
                                )
                        }
                },
                None => forall|id: u32| self.is_registered(id),
            },
            !self.is_registered(start) ==> r == Some(start),
    {
        let mut steps: u64 = 0;
        while steps < 0x1_0000_0000
            invariant
                steps <= 0x1_0000_0000,
                forall|j: int|
                    0 <= j < steps ==> self.is_registered(#[trigger] candidate(start, j)),
            decreases 0x1_0000_0000 - steps,
        {
            let id: u32 = ((start as u64 + steps) % 0x1_0000_0000) as u32;
            assert(id == candidate(start, steps as int));
            assert(candidate(start, 0) == start);
            if !self.contains(id) {
                return Some(id);
            }
            steps = steps + 1;
        }
        assert forall|id: u32| self.is_registered(id) by {
            let j: int = (id - start + 0x1_0000_0000) % 0x1_0000_0000;
            assert(candidate(start, j) == id);
        }
        None
    }

    /// An identity for a new connection: a number drawn at random, and
    /// drawn again while a live connection has it. After
    /// [`ID_REDRAWS`] collisions the search goes on from the last draw to
    /// the next identity that is free, so that it ends. There is no
    /// identity only when every one is taken.
    pub fn generate_id(&self) -> (r: Option<u32>)
        ensures
            match r {
                Some(id) => !self.is_registered(id),
                None => forall|id: u32| self.is_registered(id),
            },
    {
        let mut drawn: u32 = random_u32();
        let mut collisions: u32 = 0;
        while collisions < ID_REDRAWS && self.contains(drawn)
            invariant
                collisions <= ID_REDRAWS,
            decreases ID_REDRAWS - collisions,
        {
            drawn = random_u32();
            collisions = collisions + 1;
        }
        self.first_free_from(drawn)
    }

    /// Registers a connection under its identity. A connection that stood
    /// there before is replaced.
    pub fn add_connection(&mut self, connection: Connection)
        requires
            old(self).well_formed(),
        ensures
            final(self).well_formed(),
            final(self).entries() == old(self).entries().insert(connection.id, connection),
    {
        let id: u32 = connection.id;
        let prior = table_insert(&mut self.connections, id, connection);
        if prior.is_none() {
            self.connection_count = self.connection_count.wrapping_add(1);
        }
    }

    /// Takes the connection under `id` out of the registry. Where there is
    /// none, nothing changes.
    pub fn remove_connection(&mut self, id: u32)
        requires
            old(self).well_formed(),
        ensures
            final(self).well_formed(),
            final(self).entries() == old(self).entries().remove(id),
    {
        let prior = table_remove(&mut self.connections, id);
        if prior.is_some() {
            self.connection_count = self.connection_count.wrapping_sub(1);
        }
    }

    /// Hands the bytes that arrived for the connection under `id` to that
    /// connection and gives back the frames that it wants sent, oldest
    /// first, and the state that it is in now. When the bytes end the
    /// connection, it is taken out of the registry, whatever the error.
    /// Bytes for a connection that is not registered are a
    /// `TransportError`.
    pub fn deliver(&mut self, id: u32, data: &[u8], ctx: &ServerContext) -> (r: Result<
        Delivery,
        ProtocolError,
    >)
        requires
            old(self).well_formed(),
        ensures
            final(self).well_formed(),
            !old(self).is_registered(id) ==> (r matches Err(e) && e
                == ProtocolError::TransportError) && final(self).entries() == old(self).entries(),
            old(self).is_registered(id) ==> {
                let before = old(self).entries()[id];
                let after = final(self).entries();
                let outcome = run(
                    before.session(),
                    before.buffered() + data@,
                    before.ceiling() as nat,
                    *ctx,
                );
                match outcome.2 {
                    Some(e) => (r matches Err(f) && f == e) && after == old(
                        self,
                    ).entries().remove(id),
                    None => {
                        &&& (r matches Ok(d) && rows(d.frames@) == outcome.0.queue && d.state
                            == outcome.0.state)
                        &&& after.dom() == old(self).entries().dom()
                        &&& forall|other: u32|
                            other != id && old(self).is_registered(other) ==> after[other]
                                == old(self).entries()[other]
                        &&& after[id].state == outcome.0.state
                        &&& after[id].player_uuid == outcome.0.player_uuid
                        &&& after[id].queued() == Seq::<Seq<u8>>::empty()
                        &&& after[id].buffered() == outcome.1
                        &&& after[id].ceiling() == before.ceiling()
                    },
                }
            },
    {
        let mut connection = match table_remove(&mut self.connections, id) {
            Some(connection) => connection,
            None => {
                assert(self.entries() =~= old(self).entries());
                return Err(ProtocolError::TransportError);
            },
        };
        match connection.receive(data, ctx) {
            Ok(_) => {
                let frames = connection.take_queued();
                let state = connection.state;
                table_insert(&mut self.connections, id, connection);
                assert(self.entries().dom() =~= old(self).entries().dom());
                Ok(Delivery { frames, state })
            },
            Err(e) => {
                self.connection_count = self.connection_count.wrapping_sub(1);
                Err(e)
            },
        }
    }

    /// The stream of the connection under `id` has ended: the connection
    /// is taken out of the registry. Bytes of a frame that never became
    /// complete are a `TransportError`; a stream that ends between frames
    /// ends well, and so does one of a connection that is not registered.
    pub fn end_of_stream(&mut self, id: u32) -> (r: Result<(), ProtocolError>)
        requires
            old(self).well_formed(),
        ensures
            final(self).well_formed(),
            final(self).entries() == old(self).entries().remove(id),
            r == if old(self).is_registered(id) && old(self).entries()[id].buffered().len() != 0 {
                Err::<(), ProtocolError>(ProtocolError::TransportError)
            } else {
                Ok::<(), ProtocolError>(())
            },
    {
        match table_remove(&mut self.connections, id) {
            Some(connection) => {
                self.connection_count = self.connection_count.wrapping_sub(1);
                connection.end_of_stream()
            },
            None => Ok(()),
        }
    }

    /// The keep-alive tick for the connection under `id`: gives the frames
    /// that the connection wants sent, oldest first, with a keep-alive
    /// frame at their end when the connection is in `Play`. There is
    /// nothing to give for a connection that is not registered.
    pub fn keep_alive(&mut self, id: u32) -> (r: Option<Vec<Vec<u8>>>)
        requires
            old(self).well_formed(),
        ensures
            final(self).well_formed(),
            final(self).entries().dom() == old(self).entries().dom(),
            !old(self).is_registered(id) ==> r is None && final(self).entries() == old(
                self,
            ).entries(),
            old(self).is_registered(id) ==> {
                let before = old(self).entries()[id];
                let after = final(self).entries();
                &&& (r matches Some(frames) && rows(frames@) == if before.state
                    == ConnectionState::Play {
                    before.queued().push(frame_bytes(KEEP_ALIVE_PACKET, long_bytes(0)))
                } else {
                    before.queued()
                })
                &&& forall|other: u32|
                    other != id && old(self).is_registered(other) ==> after[other] == old(
                        self,
                    ).entries()[other]
                &&& after[id].state == before.state
                &&& after[id].player_uuid == before.player_uuid
                &&& after[id].queued() == Seq::<Seq<u8>>::empty()
                &&& after[id].buffered() == before.buffered()
                &&& after[id].ceiling() == before.ceiling()
            },
    {
        let mut connection = match table_remove(&mut self.connections, id) {
            Some(connection) => connection,
            None => {
                assert(self.entries() =~= old(self).entries());
                return None;
            },
        };
        connection.keep_alive();
        let frames = connection.take_queued();
        table_insert(&mut self.connections, id, connection);
        assert(self.entries().dom() =~= old(self).entries().dom());
        Some(frames)
    }
}

} // verus!
