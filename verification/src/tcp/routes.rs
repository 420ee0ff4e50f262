//! From sessions, connections and address tuples to the entries they stand for.
use vstd::prelude::*;

use crate::collections::pool;
use crate::collections::pool::{
    pool_index_from_bihash_value, pool_index_to_bihash_value, Pool, PoolIndex,
};
use crate::collections::table::KeyTable;
use crate::tcp::tuple;
use crate::tcp::tuple::{tcp_tuple, TcpTuple};
use crate::tcp::types::{DataWorkerId, SocketAddress, TcpCapabilities, TcpConnectionId};
use crate::tcp::TcpInputNext;

verus! {

/// How many entries a route index holds.
pub const TCP_ROUTE_CAPACITY: u32 = 1024;

/// The name of a session.
#[derive(Clone, Copy, Debug, PartialEq, Eq, Structural, Hash)]
pub struct SessionId {
    pub value: u64,
}

impl SessionId {
    pub fn from_raw(value: u64) -> (r: SessionId)
        ensures
            r.value == value,
    {
        SessionId { value }
    }

    pub fn get(self) -> (r: u64)
        ensures
            r == self.value,
    {
        self.value
    }
}

/// An entry that can be found by its session, its tuple and its connection.
pub trait RouteEntry: Copy {
    spec fn spec_session(self) -> u64;

    spec fn spec_tuple(self) -> Option<TcpTuple>;

    spec fn spec_connection(self) -> Option<u64>;

    fn session(self) -> (r: u64)
        ensures
            r == self.spec_session(),
    ;

    fn tuple(self) -> (r: Option<TcpTuple>)
        ensures
            r == self.spec_tuple(),
    ;

    fn connection(self) -> (r: Option<u64>)
        ensures
            r == self.spec_connection(),
    ;
}

/// The tuple of an entry whose local address may be open.
pub open spec fn entry_tuple(local: Option<SocketAddress>, remote: SocketAddress) -> Option<
    TcpTuple,
> {
    match local {
        Some(local) => tuple::tuple_of(local, remote),
        None => None,
    }
}

/// A connection that is being opened by us.
#[derive(Clone, Copy, Debug, PartialEq, Eq, Structural)]
pub struct TcpPendingRouteEntry {
    pub session_id: SessionId,
    pub local: Option<SocketAddress>,
    pub remote: SocketAddress,
    pub owner: DataWorkerId,
    pub next: TcpInputNext,
    pub capabilities: TcpCapabilities,
}

/// A connection that the peer knows of.
#[derive(Clone, Copy, Debug, PartialEq, Eq, Structural)]
pub struct TcpConnectionRouteEntry {
    pub session_id: SessionId,
    pub connection_id: Option<TcpConnectionId>,
    pub local: Option<SocketAddress>,
    pub remote: SocketAddress,
    pub owner: DataWorkerId,
    pub next: TcpInputNext,
}

impl RouteEntry for TcpPendingRouteEntry {
    open spec fn spec_session(self) -> u64 {
        self.session_id.value
    }

    open spec fn spec_tuple(self) -> Option<TcpTuple> {
        entry_tuple(self.local, self.remote)
    }

    open spec fn spec_connection(self) -> Option<u64> {
        None
    }

    fn session(self) -> (r: u64) {
        self.session_id.value
    }

    fn tuple(self) -> (r: Option<TcpTuple>) {
        match self.local {
            Some(local) => tcp_tuple(local, self.remote),
            None => None,
        }
    }

    fn connection(self) -> (r: Option<u64>) {
        None
    }
}

impl RouteEntry for TcpConnectionRouteEntry {
    open spec fn spec_session(self) -> u64 {
        self.session_id.value
    }

    open spec fn spec_tuple(self) -> Option<TcpTuple> {
        entry_tuple(self.local, self.remote)
    }

    open spec fn spec_connection(self) -> Option<u64> {
        match self.connection_id {
            Some(id) => Some(id.value),
            None => None,
        }
    }

    fn session(self) -> (r: u64) {
        self.session_id.value
    }

    fn tuple(self) -> (r: Option<TcpTuple>) {
        match self.local {
            Some(local) => tcp_tuple(local, self.remote),
            None => None,
        }
    }

    fn connection(self) -> (r: Option<u64>) {
        match self.connection_id {
            Some(id) => Some(id.value),
            None => None,
        }
    }
}

/// The entry of each session, and the session that each tuple and connection
/// leads to. Where two sessions share a tuple or connection the later one has it.
#[verifier::ext_equal]
pub struct RouteModel<E> {
    pub sessions: Map<u64, E>,
    pub tuples: Map<TcpTuple, u64>,
    pub connections: Map<u64, u64>,
}

/// `slots` without `key`, if it leads to `session`.
pub open spec fn released<K>(slots: Map<K, u64>, key: Option<K>, session: u64) -> Map<K, u64> {
    match key {
        Some(key) => if slots.contains_key(key) && slots[key] == session {
            slots.remove(key)
        } else {
            slots
        },
        None => slots,
    }
}

/// `slots` with `key`, if there is one, leading to `session`.
pub open spec fn claimed<K>(slots: Map<K, u64>, key: Option<K>, session: u64) -> Map<K, u64> {
    match key {
        Some(key) => slots.insert(key, session),
        None => slots,
    }
}

impl<E: RouteEntry> RouteModel<E> {
    pub open spec fn empty() -> Self {
        RouteModel { sessions: Map::empty(), tuples: Map::empty(), connections: Map::empty() }
    }

    /// The model once a session is gone.
    pub open spec fn forgotten(self, session: u64) -> Self {
        if self.sessions.contains_key(session) {
            let entry = self.sessions[session];
            RouteModel {
                sessions: self.sessions.remove(session),
                tuples: released(self.tuples, entry.spec_tuple(), session),
                connections: released(self.connections, entry.spec_connection(), session),
            }
        } else {
            self
        }
    }

    /// The model once a session's entry is the given one.
    pub open spec fn upserted(self, entry: E) -> Self {
        let session = entry.spec_session();
        let without = self.forgotten(session);
        RouteModel {
            sessions: without.sessions.insert(session, entry),
            tuples: claimed(without.tuples, entry.spec_tuple(), session),
            connections: claimed(without.connections, entry.spec_connection(), session),
        }
    }

    /// What a tuple leads to.
    pub open spec fn by_tuple(self, key: TcpTuple) -> Option<E> {
        if self.tuples.contains_key(key) {
            Some(self.sessions[self.tuples[key]])
        } else {
            None
        }
    }

    /// What a session's entry is.
    pub open spec fn by_session(self, session: u64) -> Option<E> {
        if self.sessions.contains_key(session) {
            Some(self.sessions[session])
        } else {
            None
        }
    }

    /// What a connection leads to.
    pub open spec fn by_connection(self, connection: u64) -> Option<E> {
        if self.connections.contains_key(connection) {
            Some(self.sessions[self.connections[connection]])
        } else {
            None
        }
    }

    /// Every entry stands under its own session, and every tuple and connection
    /// leads to a session whose entry has it.
    pub open spec fn well_formed(self) -> bool {
        &&& self.sessions.dom().finite()
        &&& forall|session: u64| #[trigger]
            self.sessions.contains_key(session) ==> self.sessions[session].spec_session()
                == session
        &&& forall|key: TcpTuple| #[trigger]
            self.tuples.contains_key(key) ==> self.sessions.contains_key(self.tuples[key])
                && self.sessions[self.tuples[key]].spec_tuple() == Some(key)
        &&& forall|key: u64| #[trigger]
            self.connections.contains_key(key) ==> self.sessions.contains_key(self.connections[key])
                && self.sessions[self.connections[key]].spec_connection() == Some(key)
    }
}

/// The sessions that slots lead to.
spec fn sessions_of<K, E: RouteEntry>(slots: Map<K, u64>, entries: Map<PoolIndex, E>) -> Map<
    K,
    u64,
> {
    Map::new(
        |key: K| slots.contains_key(key),
        |key: K| entries[pool::unpacked(slots[key])].spec_session(),
    )
}

/// The entries that slots lead to.
spec fn entries_of<K, E: RouteEntry>(slots: Map<K, u64>, entries: Map<PoolIndex, E>) -> Map<K, E> {
    Map::new(|key: K| slots.contains_key(key), |key: K| entries[pool::unpacked(slots[key])])
}

/// Entries, and the places where session, tuple and connection find them.
#[derive(Debug)]
pub struct RouteIndex<E> {
    entries: Pool<E>,
    session_slots: KeyTable<u64>,
    connection_slots: KeyTable<u64>,
    tuple_slots: KeyTable<TcpTuple>,
}

pub type TcpConnectionRouteIndex = RouteIndex<TcpConnectionRouteEntry>;

pub type TcpPendingRouteIndex = RouteIndex<TcpPendingRouteEntry>;

impl<E: RouteEntry> View for RouteIndex<E> {
    type V = RouteModel<E>;

    closed spec fn view(&self) -> RouteModel<E> {
        RouteModel {
            sessions: entries_of(self.session_slots@, self.entries@),
            tuples: sessions_of(self.tuple_slots@, self.entries@),
            connections: sessions_of(self.connection_slots@, self.entries@),
        }
    }
}

impl<E: RouteEntry> RouteIndex<E> {
    /// Sessions and entries are one to one.
    spec fn sessions_linked(self) -> bool {
        &&& forall|index: PoolIndex| #[trigger]
            self.entries@.contains_key(index) ==> {
                let session = self.entries@[index].spec_session();
                self.session_slots@.contains_key(session) && pool::unpacked(
                    self.session_slots@[session],
                ) == index
            }
        &&& forall|session: u64| #[trigger]
            self.session_slots@.contains_key(session) ==> {
                let index = pool::unpacked(self.session_slots@[session]);
                self.entries@.contains_key(index) && self.entries@[index].spec_session() == session
            }
        &&& self@.sessions.dom().len() == self.entries@.dom().len()
    }

    /// Tuples and connections lead to entries that have them.
    spec fn slots_linked(self) -> bool {
        &&& forall|key: TcpTuple| #[trigger]
            self.tuple_slots@.contains_key(key) ==> {
                let index = pool::unpacked(self.tuple_slots@[key]);
                self.entries@.contains_key(index) && self.entries@[index].spec_tuple() == Some(key)
            }
        &&& forall|key: u64| #[trigger]
            self.connection_slots@.contains_key(key) ==> {
                let index = pool::unpacked(self.connection_slots@[key]);
                self.entries@.contains_key(index) && self.entries@[index].spec_connection() == Some(
                    key,
                )
            }
    }

    pub closed spec fn well_formed(self) -> bool {
        &&& self.entries.well_formed()
        &&& self.entries.spec_capacity() == TCP_ROUTE_CAPACITY
        &&& self.session_slots.well_formed()
        &&& self.connection_slots.well_formed()
        &&& self.tuple_slots.well_formed()
        &&& self.sessions_linked()
        &&& self.slots_linked()
        &&& self@.well_formed()
    }

    /// An index holds no more sessions than its capacity.
    pub proof fn lemma_finite(self)
        requires
            self.well_formed(),
        ensures
            self@.sessions.dom().finite(),
            self@.sessions.dom().len() <= TCP_ROUTE_CAPACITY,
            self@.well_formed(),
    {
        self.entries.lemma_bounded();
    }

    pub fn empty() -> (r: Self)
        ensures
            r.well_formed(),
            r@ == RouteModel::<E>::empty(),
    {
        let r = RouteIndex {
            entries: Pool::with_capacity(TCP_ROUTE_CAPACITY),
            session_slots: KeyTable::new(TCP_ROUTE_CAPACITY),
            connection_slots: KeyTable::new(TCP_ROUTE_CAPACITY),
            tuple_slots: KeyTable::new(TCP_ROUTE_CAPACITY),
        };
        proof {
            assert(r@.sessions =~= Map::<u64, E>::empty());
            assert(r@.tuples =~= Map::<TcpTuple, u64>::empty());
            assert(r@.connections =~= Map::<u64, u64>::empty());
        }
        r
    }

    /// The entry that a tuple leads to.
    pub fn lookup_by_tuple(&self, local: SocketAddress, remote: SocketAddress) -> (r: Option<E>)
        requires
            self.well_formed(),
        ensures
            r == (match tuple::tuple_of(local, remote) {
                Some(key) => self@.by_tuple(key),
                None => None,
            }),
    {
        let Some(key) = tcp_tuple(local, remote) else {
            return None;
        };
        let Some(value) = self.tuple_slots.lookup(key) else {
            return None;
        };
        proof {
            let index = pool::unpacked(self.tuple_slots@[key]);
            assert(self.entries@.contains_key(index));
        }
        self.entries.get(pool_index_from_bihash_value(value))
    }

    /// The entry of a session.
    pub fn lookup_by_session(&self, session_id: SessionId) -> (r: Option<E>)
        requires
            self.well_formed(),
        ensures
            r == self@.by_session(session_id.value),
    {
        let Some(value) = self.session_slots.lookup(session_id.value) else {
            return None;
        };
        self.entries.get(pool_index_from_bihash_value(value))
    }

    /// The entry that a connection leads to.
    pub fn lookup_by_connection_id(&self, connection_id: TcpConnectionId) -> (r: Option<E>)
        requires
            self.well_formed(),
        ensures
            r == self@.by_connection(connection_id.value),
    {
        let Some(value) = self.connection_slots.lookup(connection_id.value) else {
            return None;
        };
        proof {
            let index = pool::unpacked(self.connection_slots@[connection_id.value]);
            assert(self.entries@.contains_key(index));
        }
        self.entries.get(pool_index_from_bihash_value(value))
    }

    /// Makes session, tuple and connection of an entry lead to it.
    fn index_entry(&mut self, index: PoolIndex, entry: E)
        requires
            old(self).session_slots.well_formed(),
            old(self).connection_slots.well_formed(),
            old(self).tuple_slots.well_formed(),
        ensures
            final(self).session_slots.well_formed(),
            final(self).connection_slots.well_formed(),
            final(self).tuple_slots.well_formed(),
            final(self).entries == old(self).entries,
            final(self).session_slots@ == old(self).session_slots@.insert(
                entry.spec_session(),
                pool::packed(index),
            ),
            final(self).connection_slots@ == claimed(
                old(self).connection_slots@,
                entry.spec_connection(),
                pool::packed(index),
            ),
            final(self).tuple_slots@ == claimed(
                old(self).tuple_slots@,
                entry.spec_tuple(),
                pool::packed(index),
            ),
    {
        let value: u64 = pool_index_to_bihash_value(index);
        self.session_slots.insert(entry.session(), value);
        if let Some(connection) = entry.connection() {
            self.connection_slots.insert(connection, value);
        }
        if let Some(key) = entry.tuple() {
            self.tuple_slots.insert(key, value);
        }
    }

    /// Takes away what leads to an entry. What was taken over by another entry
    /// stays.
    fn unindex_entry(&mut self, index: PoolIndex, entry: E)
        requires
            old(self).session_slots.well_formed(),
            old(self).connection_slots.well_formed(),
            old(self).tuple_slots.well_formed(),
        ensures
            final(self).session_slots.well_formed(),
            final(self).connection_slots.well_formed(),
            final(self).tuple_slots.well_formed(),
            final(self).entries == old(self).entries,
            final(self).session_slots@ == released(
                old(self).session_slots@,
                Some(entry.spec_session()),
                pool::packed(index),
            ),
            final(self).connection_slots@ == released(
                old(self).connection_slots@,
                entry.spec_connection(),
                pool::packed(index),
            ),
            final(self).tuple_slots@ == released(
                old(self).tuple_slots@,
                entry.spec_tuple(),
                pool::packed(index),
            ),
    {
        let value: u64 = pool_index_to_bihash_value(index);
        let session: u64 = entry.session();
        if let Some(found) = self.session_slots.lookup(session) {
            if found == value {
                self.session_slots.remove(session);
            }
        }
        if let Some(connection) = entry.connection() {
            if let Some(found) = self.connection_slots.lookup(connection) {
                if found == value {
                    self.connection_slots.remove(connection);
                }
            }
        }
        if let Some(key) = entry.tuple() {
            if let Some(found) = self.tuple_slots.lookup(key) {
                if found == value {
                    self.tuple_slots.remove(key);
                }
            }
        }
    }

    /// Takes a session's entry out, and what leads to it.
    pub fn forget_session(&mut self, session_id: SessionId)
        requires
            old(self).well_formed(),
        ensures
            final(self).well_formed(),
            final(self)@ == old(self)@.forgotten(session_id.value),
    {
        let Some(value) = self.session_slots.lookup(session_id.value) else {
            return;
        };
        let index = pool_index_from_bihash_value(value);
        let Some(entry) = self.entries.get(index) else {
            return;
        };
        self.unindex_entry(index, entry);
        let _ = self.entries.remove(index);
        proof {
            pool::value_round_trip(value);
            pool::index_round_trip(index);
            old(self).entries.lemma_bounded();
            self.lemma_forgotten(*old(self), index, entry);
        }
    }

    proof fn lemma_forgotten(self, before: Self, index: PoolIndex, entry: E)
        requires
            before.well_formed(),
            before.entries@.contains_key(index),
            before.entries@[index] == entry,
            before.entries@.dom().finite(),
            self.entries.well_formed(),
            self.entries.spec_capacity() == before.entries.spec_capacity(),
            self.entries@ == before.entries@.remove(index),
            self.session_slots.well_formed(),
            self.connection_slots.well_formed(),
            self.tuple_slots.well_formed(),
            self.session_slots@ == released(
                before.session_slots@,
                Some(entry.spec_session()),
                pool::packed(index),
            ),
            self.connection_slots@ == released(
                before.connection_slots@,
                entry.spec_connection(),
                pool::packed(index),
            ),
            self.tuple_slots@ == released(
                before.tuple_slots@,
                entry.spec_tuple(),
                pool::packed(index),
            ),
        ensures
            self.well_formed(),
            self@ == before@.forgotten(entry.spec_session()),
    {
        let session = entry.spec_session();
        assert(before.session_slots@.contains_key(session));
        assert(pool::unpacked(before.session_slots@[session]) == index);
        pool::value_round_trip(before.session_slots@[session]);
        assert(self.session_slots@ == before.session_slots@.remove(session));
        assert forall|key: TcpTuple| #[trigger] before.tuple_slots@.contains_key(key) implies (
        pool::unpacked(before.tuple_slots@[key]) == index) == (before.tuple_slots@[key]
            == pool::packed(index)) && (before@.tuples[key] == session) == (pool::unpacked(
            before.tuple_slots@[key],
        ) == index) by {
            pool::value_round_trip(before.tuple_slots@[key]);
            pool::index_round_trip(index);
            let other = pool::unpacked(before.tuple_slots@[key]);
            assert(before.entries@.contains_key(other));
        }
        assert forall|key: u64| #[trigger] before.connection_slots@.contains_key(key) implies (
        pool::unpacked(before.connection_slots@[key]) == index) == (before.connection_slots@[key]
            == pool::packed(index)) && (before@.connections[key] == session) == (pool::unpacked(
            before.connection_slots@[key],
        ) == index) by {
            pool::value_round_trip(before.connection_slots@[key]);
            pool::index_round_trip(index);
            let other = pool::unpacked(before.connection_slots@[key]);
            assert(before.entries@.contains_key(other));
        }
        assert forall|other: u64| #[trigger] self.session_slots@.contains_key(
            other,
        ) implies pool::unpacked(self.session_slots@[other]) != index by {
            assert(before.session_slots@.contains_key(other));
        }
        assert forall|key: TcpTuple| #[trigger] self.tuple_slots@.contains_key(
            key,
        ) implies before.tuple_slots@.contains_key(key) && pool::unpacked(self.tuple_slots@[key])
            != index && self.tuple_slots@[key] == before.tuple_slots@[key] by {}
        assert forall|key: u64| #[trigger] self.connection_slots@.contains_key(
            key,
        ) implies before.connection_slots@.contains_key(key) && pool::unpacked(
            self.connection_slots@[key],
        ) != index && self.connection_slots@[key] == before.connection_slots@[key] by {}
        let expected = before@.forgotten(session);
        assert(self@.sessions =~= expected.sessions);
        assert(self@.tuples =~= expected.tuples);
        assert(self@.connections =~= expected.connections);
        assert(self@.sessions.dom() =~= before@.sessions.dom().remove(session));
        assert(self.entries@.dom() =~= before.entries@.dom().remove(index));
        assert forall|other: PoolIndex| #[trigger] self.entries@.contains_key(other) implies {
            let owner = self.entries@[other].spec_session();
            self.session_slots@.contains_key(owner) && pool::unpacked(self.session_slots@[owner])
                == other
        } by {
            assert(before.entries@.contains_key(other));
        }
        assert(self.sessions_linked());
        assert(self.slots_linked());
        lemma_forgotten_keeps_model(before@, session);
    }

    /// Puts a session's entry in, or in place of the one it has.
    pub fn upsert(&mut self, entry: E)
        requires
            old(self).well_formed(),
            old(self)@.sessions.contains_key(entry.spec_session())
                || old(self)@.sessions.dom().len() < TCP_ROUTE_CAPACITY,
        ensures
            final(self).well_formed(),
            final(self)@ == old(self)@.upserted(entry),
    {
        self.forget_session(SessionId { value: entry.session() });
        let ghost middle = *self;
        proof {
            let session = entry.spec_session();
            if old(self)@.sessions.contains_key(session) {
                assert(middle@.sessions.dom() =~= old(self)@.sessions.dom().remove(session));
                old(self).entries.lemma_bounded();
            }
        }
        let Some(index) = self.entries.insert(entry) else {
            return;
        };
        self.index_entry(index, entry);
        proof {
            pool::index_round_trip(index);
            middle.entries.lemma_bounded();
            self.lemma_added(middle, index, entry);
            lemma_upserted_twice(old(self)@, entry);
        }
    }

    proof fn lemma_added(self, before: Self, index: PoolIndex, entry: E)
        requires
            before.well_formed(),
            !before@.sessions.contains_key(entry.spec_session()),
            !before.entries@.contains_key(index),
            before.entries@.dom().finite(),
            self.entries.well_formed(),
            self.entries.spec_capacity() == before.entries.spec_capacity(),
            self.entries@ == before.entries@.insert(index, entry),
            self.session_slots.well_formed(),
            self.connection_slots.well_formed(),
            self.tuple_slots.well_formed(),
            self.session_slots@ == before.session_slots@.insert(
                entry.spec_session(),
                pool::packed(index),
            ),
            self.connection_slots@ == claimed(
                before.connection_slots@,
                entry.spec_connection(),
                pool::packed(index),
            ),
            self.tuple_slots@ == claimed(
                before.tuple_slots@,
                entry.spec_tuple(),
                pool::packed(index),
            ),
        ensures
            self.well_formed(),
            self@ == before@.upserted(entry),
    {
        let session = entry.spec_session();
        pool::index_round_trip(index);
        assert forall|key: TcpTuple| #[trigger] before.tuple_slots@.contains_key(
            key,
        ) implies pool::unpacked(before.tuple_slots@[key]) != index by {}
        assert forall|key: u64| #[trigger] before.connection_slots@.contains_key(
            key,
        ) implies pool::unpacked(before.connection_slots@[key]) != index by {}
        assert forall|other: u64| #[trigger] before.session_slots@.contains_key(
            other,
        ) implies pool::unpacked(before.session_slots@[other]) != index && other != session by {
            assert(before@.sessions.contains_key(other));
        }
        let expected = before@.upserted(entry);
        assert(self@.sessions =~= expected.sessions);
        assert(self@.tuples =~= expected.tuples);
        assert(self@.connections =~= expected.connections);
        assert(self@.sessions.dom() =~= before@.sessions.dom().insert(session));
        assert(self.entries@.dom() =~= before.entries@.dom().insert(index));
        assert forall|other: PoolIndex| #[trigger] self.entries@.contains_key(other) implies {
            let owner = self.entries@[other].spec_session();
            self.session_slots@.contains_key(owner) && pool::unpacked(self.session_slots@[owner])
                == other
        } by {
            if other != index {
                assert(before.entries@.contains_key(other));
                let owner = before.entries@[other].spec_session();
                assert(before.session_slots@.contains_key(owner));
            }
        }
        assert(self.sessions_linked());
        assert(self.slots_linked());
        lemma_upserted_keeps_model(before@, entry);
    }
}

/// The entry's tuple and connection, if it has them, lead to some entry.
pub open spec fn found_somewhere<E: RouteEntry>(model: RouteModel<E>, entry: E) -> bool {
    &&& entry.spec_tuple() matches Some(key) ==> model.tuples.contains_key(key)
    &&& entry.spec_connection() matches Some(key) ==> model.connections.contains_key(key)
}

impl<E: RouteEntry> RouteIndex<E> {
    /// A copy with the same sessions. Where sessions share a tuple or connection
    /// the copy may lead to another one of them.
    pub fn clone(&self) -> (r: Self)
        requires
            self.well_formed(),
        ensures
            r.well_formed(),
            r@.sessions == self@.sessions,
            forall|session: u64| #[trigger]
                r@.sessions.contains_key(session) ==> found_somewhere(r@, r@.sessions[session]),
    {
        let mut cloned: RouteIndex<E> = RouteIndex::empty();
        let indices = self.entries.indices();
        proof {
            self.entries.lemma_bounded();
            indices@.unique_seq_to_set();
            assert(indices@.to_set() =~= self.entries@.dom());
        }
        let mut i: usize = 0;
        while i < indices.len()
            invariant
                i <= indices@.len(),
                self.well_formed(),
                cloned.well_formed(),
                cloned@.sessions.dom().len() <= i,
                indices@.len() <= TCP_ROUTE_CAPACITY,
                forall|k: int|
                    0 <= k < indices@.len() ==> self.entries@.contains_key(#[trigger] indices@[k]),
                forall|session: u64| #[trigger]
                    cloned@.sessions.contains_key(session) ==> {
                        &&& self@.sessions.contains_key(session)
                        &&& cloned@.sessions[session] == self@.sessions[session]
                        &&& found_somewhere(cloned@, cloned@.sessions[session])
                    },
                forall|k: int|
                    0 <= k < i ==> cloned@.sessions.contains_key(
                        self.entries@[#[trigger] indices@[k]].spec_session(),
                    ),
            decreases indices@.len() - i,
        {
            let ghost before = cloned@;
            proof {
                cloned.lemma_finite();
                assert(self.entries@.contains_key(indices@[i as int]));
            }
            if let Some(entry) = self.entries.get(indices[i]) {
                cloned.upsert(entry);
                proof {
                    let session = entry.spec_session();
                    assert(cloned@.sessions.dom() =~= before.sessions.dom().insert(session));
                    assert(self.session_slots@.contains_key(session));
                    lemma_upserted_again(before, entry);
                }
            }
            i = i + 1;
        }
        proof {
            assert forall|session: u64| #[trigger] self@.sessions.contains_key(
                session,
            ) implies cloned@.sessions.contains_key(session) by {
                assert(self.session_slots@.contains_key(session));
                let index = pool::unpacked(self.session_slots@[session]);
                assert(self.entries@.contains_key(index));
                assert(indices@.contains(index));
                let k = choose|k: int| 0 <= k < indices@.len() && indices@[k] == index;
                assert(self.entries@[indices@[k]].spec_session() == session);
            }
            assert(cloned@.sessions =~= self@.sessions);
        }
        cloned
    }
}

/// Putting an entry in keeps what leads somewhere leading somewhere, where it is
/// the session's first entry or the one it has.
proof fn lemma_upserted_again<E: RouteEntry>(model: RouteModel<E>, entry: E)
    requires
        model.well_formed(),
        model.sessions.contains_key(entry.spec_session())
            ==> model.sessions[entry.spec_session()] == entry,
    ensures
        found_somewhere(model.upserted(entry), entry),
        forall|other: E|
            #![auto]
            found_somewhere(model, other) ==> found_somewhere(model.upserted(entry), other),
{
}

proof fn lemma_forgotten_keeps_model<E: RouteEntry>(model: RouteModel<E>, session: u64)
    requires
        model.well_formed(),
    ensures
        model.forgotten(session).well_formed(),
{
}

proof fn lemma_upserted_keeps_model<E: RouteEntry>(model: RouteModel<E>, entry: E)
    requires
        model.well_formed(),
    ensures
        model.upserted(entry).well_formed(),
{
    lemma_forgotten_keeps_model(model, entry.spec_session());
    let without = model.forgotten(entry.spec_session());
    assert(!without.sessions.contains_key(entry.spec_session()));
}

/// Forgetting a session first changes nothing about putting its entry in.
proof fn lemma_upserted_twice<E: RouteEntry>(model: RouteModel<E>, entry: E)
    ensures
        model.forgotten(entry.spec_session()).upserted(entry) == model.upserted(entry),
{
    let session = entry.spec_session();
    let without = model.forgotten(session);
    assert(!without.sessions.contains_key(session));
    assert(without.forgotten(session) == without);
}

/// An entry that was just put in is found by its session, its tuple and its
/// connection.
pub proof fn upserted_entry_is_found<E: RouteEntry>(model: RouteModel<E>, entry: E)
    ensures
        ({
            let after = model.upserted(entry);
            &&& after.by_session(entry.spec_session()) == Some(entry)
            &&& entry.spec_tuple() matches Some(key) ==> after.by_tuple(key) == Some(entry)
            &&& entry.spec_connection() matches Some(key) ==> after.by_connection(key) == Some(
                entry,
            )
        }),
{
}

/// A session that was forgotten is found no more, by nothing.
pub proof fn forgotten_session_is_gone<E: RouteEntry>(
    model: RouteModel<E>,
    session: u64,
    key: TcpTuple,
    connection: u64,
)
    requires
        model.well_formed(),
    ensures
        ({
            let after = model.forgotten(session);
            &&& after.by_session(session) is None
            &&& after.by_tuple(key) matches Some(entry) ==> entry.spec_session() != session
            &&& after.by_connection(connection) matches Some(entry) ==> entry.spec_session()
                != session
        }),
{
    lemma_forgotten_keeps_model(model, session);
}

/// Putting an entry in leaves the other sessions as they were, and what leads to
/// them but for what the new entry takes over.
pub proof fn upsert_leaves_other_sessions<E: RouteEntry>(
    model: RouteModel<E>,
    entry: E,
    other: u64,
    key: TcpTuple,
)
    requires
        model.well_formed(),
        other != entry.spec_session(),
    ensures
        ({
            let after = model.upserted(entry);
            &&& after.by_session(other) == model.by_session(other)
            &&& entry.spec_tuple() != Some(key) && model.tuples.contains_key(key)
                && model.tuples[key] == other ==> after.by_tuple(key) == model.by_tuple(key)
        }),
{
}

/// It leaves the other connections as they were, too.
pub proof fn upsert_leaves_other_connections<E: RouteEntry>(
    model: RouteModel<E>,
    entry: E,
    other: u64,
    connection: u64,
)
    requires
        model.well_formed(),
        other != entry.spec_session(),
    ensures
        ({
            let after = model.upserted(entry);
            entry.spec_connection() != Some(connection) && model.connections.contains_key(connection)
                && model.connections[connection] == other ==> after.by_connection(connection)
                == model.by_connection(connection)
        }),
{
}

/// Forgetting a session leaves the others, and what leads to them, as they were.
pub proof fn forgetting_leaves_other_sessions<E: RouteEntry>(
    model: RouteModel<E>,
    session: u64,
    other: u64,
    key: TcpTuple,
    connection: u64,
)
    requires
        model.well_formed(),
        other != session,
    ensures
        ({
            let after = model.forgotten(session);
            &&& after.by_session(other) == model.by_session(other)
            &&& model.tuples.contains_key(key) && model.tuples[key] == other ==> after.by_tuple(key)
                == model.by_tuple(key)
            &&& model.connections.contains_key(connection) && model.connections[connection] == other
                ==> after.by_connection(connection) == model.by_connection(connection)
        }),
{
}

} // verus!
