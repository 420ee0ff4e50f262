//! What a worker knows of its connections, its listeners and their peers.
use vstd::prelude::*;

use crate::collections::indexed::IndexedValues;
use crate::congestion::CongestionController;
use crate::tcp::connection_model;
use crate::tcp::connection_model::TcpConnection;
use crate::tcp::cookies;
use crate::tcp::cookies::{
    cookie_epoch, TcpCookieSecrets, TCP_FAST_OPEN_COOKIE_LEN,
    TCP_FAST_OPEN_COOKIE_PREVIOUS_EPOCH_WINDOW, TCP_FAST_OPEN_COOKIE_ROTATION_SECS,
    TCP_LISTENER_COOKIE_PREVIOUS_EPOCH_WINDOW, TCP_LISTENER_COOKIE_ROTATION_SECS,
};
use crate::tcp::listener_pending;
use crate::tcp::listener_pending::{
    TcpListenerPendingEntry, TcpListenerPendingTable, TcpLookupId,
    TCP_LISTENER_PENDING_ROTATION_SECS,
};
use crate::tcp::listeners::{
    TcpListenerAddress, TcpListenerLookupAccess, TcpLookupSnapshot, TcpLookupValue,
    TcpV4ListenerKey, TcpV6ListenerKey,
};
use crate::tcp::routes::{
    SessionId, TcpConnectionRouteEntry, TcpConnectionRouteIndex, TcpPendingRouteEntry,
    TcpPendingRouteIndex, RouteModel, TCP_ROUTE_CAPACITY,
};
use crate::tcp::tuple;
use crate::tcp::tuple::{tcp_tuple, TcpTuple};
use crate::tcp::types;
use crate::tcp::types::{
    DataWorkerId, IpAddress, SocketAddress, TcpCapabilities, TcpConnectionId, TcpFastOpenCookie,
    TcpState, TcpTimestampOption,
};
use crate::tcp::TcpInputNext;

verus! {

/// The first initial sequence number, before it is stirred.
pub const TCP_FIRST_ISS: u32 = 81_000;

/// How far apart the unstirred initial sequence numbers are.
pub const TCP_ISS_STEP: u32 = 64_099;

/// What was remembered of a peer that granted a fast open cookie.
#[derive(Clone, Copy, Debug, PartialEq, Eq)]
pub struct TcpFastOpenGrant {
    pub cookie: TcpFastOpenCookie,
    pub max_segment_size: Option<u16>,
}

/// Where a segment of a known connection goes.
#[derive(Clone, Copy, Debug, PartialEq, Eq, Structural)]
pub struct TcpRoute {
    pub session_id: SessionId,
    pub owner: DataWorkerId,
    pub next: TcpInputNext,
}

pub struct TcpLookupState {
    pub owner_worker: DataWorkerId,
    pub listeners: TcpLookupSnapshot,
    pub connections: TcpConnectionRouteIndex,
    pub pending: TcpPendingRouteIndex,
    pub next_iss: u32,
    pub fast_open_cache: IndexedValues<TcpTuple, TcpFastOpenGrant>,
    pub fast_open_secrets: TcpCookieSecrets,
    pub listener_pending: TcpListenerPendingTable,
    pub listener_cookie_secrets: TcpCookieSecrets,
}

/// The route of a connection's entry.
pub open spec fn connection_route(entry: Option<TcpConnectionRouteEntry>) -> Option<TcpRoute> {
    match entry {
        Some(entry) => Some(
            TcpRoute { session_id: entry.session_id, owner: entry.owner, next: entry.next },
        ),
        None => None,
    }
}

/// The route of an entry for a connection that is being opened.
pub open spec fn pending_route(entry: Option<TcpPendingRouteEntry>) -> Option<TcpRoute> {
    match entry {
        Some(entry) => Some(
            TcpRoute { session_id: entry.session_id, owner: entry.owner, next: entry.next },
        ),
        None => None,
    }
}

/// The entry under which a connection is found once the peer knows of it.
pub open spec fn connection_entry<C: CongestionController>(
    session_id: SessionId,
    connection: TcpConnection<C>,
) -> TcpConnectionRouteEntry {
    TcpConnectionRouteEntry {
        session_id,
        connection_id: connection.connection_id,
        local: connection.local,
        remote: connection.remote,
        owner: connection.owner_worker,
        next: connection_model::stage_of(connection.state),
    }
}

/// The entry under which a connection is found while we open it.
pub open spec fn opening_entry<C: CongestionController>(
    session_id: SessionId,
    connection: TcpConnection<C>,
    capabilities: TcpCapabilities,
) -> TcpPendingRouteEntry {
    TcpPendingRouteEntry {
        session_id,
        local: connection.local,
        remote: connection.remote,
        owner: connection.owner_worker,
        next: connection_model::stage_of(connection.state),
        capabilities,
    }
}

/// The bits of `value` turned left by `count` places, with `rest` the places left.
pub open spec fn turned(value: u32, count: u32, rest: u32) -> u32 {
    (value << count) | (value >> rest)
}

/// What the addresses put into an initial sequence number.
pub open spec fn address_stir(local: IpAddress, remote: IpAddress) -> u32 {
    match (local, remote) {
        (IpAddress::V4(local), IpAddress::V4(remote)) => local ^ turned(remote, 13, 19),
        (IpAddress::V6(local), IpAddress::V6(remote)) => ((local % 0x1_0000_0000) as u32) ^ ((local
            / 0x1_0000_0000_0000_0000 % 0x1_0000_0000) as u32) ^ turned(
            (remote % 0x1_0000_0000) as u32,
            7,
            25,
        ),
        _ => 0x9e37_79b9,
    }
}

/// The initial sequence number of a tuple, never zero.
pub open spec fn stirred_iss(base: u32, local: SocketAddress, remote: SocketAddress) -> u32 {
    let ports = ((local.port * 0x1_0000) + remote.port) as u32;
    let value = base ^ ports ^ address_stir(local.ip, remote.ip);
    if value == 0 {
        1
    } else {
        value
    }
}

impl TcpLookupState {
    pub open spec fn well_formed(self) -> bool {
        &&& self.listeners.well_formed()
        &&& self.connections.well_formed()
        &&& self.pending.well_formed()
        &&& self.fast_open_cache.well_formed()
        &&& self.fast_open_secrets.well_formed()
        &&& self.listener_pending.well_formed()
        &&& self.listener_cookie_secrets.well_formed()
    }

    /// There is room for the entry that publishing a connection adds: one among
    /// the pending opens while it is opening, none once it is closed, and one
    /// among the connections in every other state.
    pub open spec fn has_room<C: CongestionController>(
        self,
        session_id: SessionId,
        connection: TcpConnection<C>,
    ) -> bool {
        match connection.state {
            TcpState::Closed => true,
            TcpState::SynSent => self.pending@.sessions.contains_key(session_id.value)
                || self.pending@.sessions.dom().len() < TCP_ROUTE_CAPACITY,
            _ => self.connections@.sessions.contains_key(session_id.value)
                || self.connections@.sessions.dom().len() < TCP_ROUTE_CAPACITY,
        }
    }

    /// The options that were offered when a session's connection was opened.
    pub open spec fn offered(self, session_id: SessionId) -> Option<TcpCapabilities> {
        match self.pending@.by_session(session_id.value) {
            Some(entry) => Some(entry.capabilities),
            None => None,
        }
    }

    /// Where a segment of a connection that the peer knows of goes.
    pub open spec fn connection_route_of(
        self,
        local: SocketAddress,
        remote: SocketAddress,
    ) -> Option<TcpRoute> {
        match tuple::tuple_of(local, remote) {
            Some(key) => connection_route(self.connections@.by_tuple(key)),
            None => None,
        }
    }

    /// Where a segment between two addresses goes: to the connection that the
    /// peer knows of, or else to the one that we are opening.
    pub open spec fn route_of(self, local: SocketAddress, remote: SocketAddress) -> Option<
        TcpRoute,
    > {
        match tuple::tuple_of(local, remote) {
            Some(key) => match self.connections@.by_tuple(key) {
                Some(entry) => connection_route(Some(entry)),
                None => pending_route(self.pending@.by_tuple(key)),
            },
            None => None,
        }
    }

    /// The routes of connections after a session's connection was published.
    pub open spec fn published_connections<C: CongestionController>(
        self,
        session_id: SessionId,
        connection: TcpConnection<C>,
    ) -> RouteModel<TcpConnectionRouteEntry> {
        let without = self.connections@.forgotten(session_id.value);
        if connection.state == TcpState::Closed || connection.state == TcpState::SynSent {
            without
        } else {
            without.upserted(connection_entry(session_id, connection))
        }
    }

    /// The routes of opening connections after a session's connection was
    /// published.
    pub open spec fn published_pending<C: CongestionController>(
        self,
        session_id: SessionId,
        connection: TcpConnection<C>,
    ) -> RouteModel<TcpPendingRouteEntry> {
        let without = self.pending@.forgotten(session_id.value);
        if connection.state == TcpState::SynSent {
            let capabilities = match self.offered(session_id) {
                Some(capabilities) => capabilities,
                None => types::no_capabilities(),
            };
            without.upserted(opening_entry(session_id, connection, capabilities))
        } else {
            without
        }
    }

    pub fn new(owner_worker: DataWorkerId) -> (r: Self)
        ensures
            r.well_formed(),
            r.owner_worker == owner_worker,
            r.connections@ == RouteModel::<TcpConnectionRouteEntry>::empty(),
            r.pending@ == RouteModel::<TcpPendingRouteEntry>::empty(),
            r.next_iss == TCP_FIRST_ISS,
            r.fast_open_cache@ == Map::<TcpTuple, TcpFastOpenGrant>::empty(),
            r.listener_pending@ == Map::<TcpTuple, TcpListenerPendingEntry>::empty(),
            r.listeners.spec_listeners().spec_v4()@ == Map::<
                TcpV4ListenerKey,
                TcpLookupValue,
            >::empty(),
            r.listeners.spec_listeners().spec_v6()@ == Map::<
                TcpV6ListenerKey,
                TcpLookupValue,
            >::empty(),
            r.fast_open_secrets@ == Map::<
                (TcpLookupId, u32),
                std::collections::hash_map::RandomState,
            >::empty(),
            r.fast_open_secrets.spec_len() == 0,
            r.listener_cookie_secrets@ == Map::<
                (TcpLookupId, u32),
                std::collections::hash_map::RandomState,
            >::empty(),
            r.listener_cookie_secrets.spec_len() == 0,
    {
        TcpLookupState {
            owner_worker,
            listeners: TcpLookupSnapshot::empty(),
            connections: TcpConnectionRouteIndex::empty(),
            pending: TcpPendingRouteIndex::empty(),
            next_iss: TCP_FIRST_ISS,
            fast_open_cache: IndexedValues::new(64),
            fast_open_secrets: TcpCookieSecrets::new(),
            listener_pending: TcpListenerPendingTable::new(),
            listener_cookie_secrets: TcpCookieSecrets::new(),
        }
    }

    pub fn owner_worker(&self) -> (r: DataWorkerId)
        ensures
            r == self.owner_worker,
    {
        self.owner_worker
    }

    /// Puts a listener of this worker at a key.
    pub fn insert_listener<A: TcpListenerAddress>(
        &mut self,
        key: A::Key,
        id: TcpLookupId,
        capabilities: TcpCapabilities,
    ) where TcpLookupSnapshot: TcpListenerLookupAccess<A>
        ensures
            *final(self) == (TcpLookupState { listeners: final(self).listeners, ..*old(self) }),
            TcpListenerLookupAccess::<A>::spec_table(&final(self).listeners).well_formed(),
            TcpListenerLookupAccess::<A>::spec_table(&final(self).listeners)@
                == TcpListenerLookupAccess::<A>::spec_table(&old(self).listeners)@.insert(
                key,
                (TcpLookupValue { id, owner_worker: old(self).owner_worker, capabilities }),
            ),
            TcpListenerLookupAccess::<A>::same_elsewhere(
                &old(self).listeners,
                &final(self).listeners,
            ),
    {
        let value = TcpLookupValue { id, owner_worker: self.owner_worker, capabilities };
        self.listeners.insert_listener::<A>(key, value);
    }

    /// A copy of the listeners for others to read.
    pub fn publish_snapshot(&self) -> (r: TcpLookupSnapshot)
        ensures
            r.well_formed(),
            r.spec_listeners().spec_v4()@ == self.listeners.spec_listeners().spec_v4()@,
            r.spec_listeners().spec_v6()@ == self.listeners.spec_listeners().spec_v6()@,
    {
        self.listeners.clone()
    }

    /// Remembers where the segments of a connection go.
    pub fn remember_session(&mut self, entry: TcpConnectionRouteEntry)
        requires
            old(self).well_formed(),
            old(self).connections@.sessions.contains_key(entry.session_id.value)
                || old(self).connections@.sessions.dom().len() < TCP_ROUTE_CAPACITY,
        ensures
            final(self).well_formed(),
            *final(self) == (TcpLookupState {
                connections: final(self).connections,
                ..*old(self)
            }),
            final(self).connections@ == old(self).connections@.upserted(entry),
    {
        self.connections.upsert(entry);
    }

    /// Remembers a connection that is being opened.
    pub fn remember_pending_open(&mut self, entry: TcpPendingRouteEntry)
        requires
            old(self).well_formed(),
            old(self).pending@.sessions.contains_key(entry.session_id.value)
                || old(self).pending@.sessions.dom().len() < TCP_ROUTE_CAPACITY,
        ensures
            final(self).well_formed(),
            *final(self) == (TcpLookupState { pending: final(self).pending, ..*old(self) }),
            final(self).pending@ == old(self).pending@.upserted(entry),
    {
        self.pending.upsert(entry);
    }

    pub fn session_route_by_tuple(&self, local: SocketAddress, remote: SocketAddress) -> (r: Option<
        TcpRoute,
    >)
        requires
            self.well_formed(),
        ensures
            r == self.connection_route_of(local, remote),
    {
        match self.connections.lookup_by_tuple(local, remote) {
            Some(entry) => Some(
                TcpRoute { session_id: entry.session_id, owner: entry.owner, next: entry.next },
            ),
            None => None,
        }
    }

    pub fn pending_route_by_tuple(&self, local: SocketAddress, remote: SocketAddress) -> (r: Option<
        TcpRoute,
    >)
        requires
            self.well_formed(),
        ensures
            r == (match tuple::tuple_of(local, remote) {
                Some(key) => pending_route(self.pending@.by_tuple(key)),
                None => None,
            }),
    {
        match self.pending.lookup_by_tuple(local, remote) {
            Some(entry) => Some(
                TcpRoute { session_id: entry.session_id, owner: entry.owner, next: entry.next },
            ),
            None => None,
        }
    }

    /// Where a segment between two addresses goes, and, where it goes nowhere and
    /// that is asked for, whether its handshake waits for a listener.
    pub fn input_route(
        &mut self,
        local: SocketAddress,
        remote: SocketAddress,
        check_listener_pending: bool,
        pending_epoch: u32,
    ) -> (r: (Option<TcpRoute>, bool))
        requires
            old(self).well_formed(),
        ensures
            final(self).well_formed(),
            ({
                let route = old(self).route_of(local, remote);
                let checked = route is None && check_listener_pending;
                let left = listener_pending::pruned(old(self).listener_pending@, pending_epoch);
                &&& r.0 == route
                &&& r.1 == (checked && left.contains_key(tuple::key_of(local, remote)))
                &&& *final(self) == (TcpLookupState {
                    listener_pending: final(self).listener_pending,
                    ..*old(self)
                })
                &&& final(self).listener_pending@ == (if checked {
                    left
                } else {
                    old(self).listener_pending@
                })
            }),
    {
        let route = match self.session_route_by_tuple(local, remote) {
            Some(route) => Some(route),
            None => self.pending_route_by_tuple(local, remote),
        };
        if route.is_some() || !check_listener_pending {
            return (route, false);
        }
        (None, self.listener_pending.contains(local, remote, pending_epoch))
    }

    pub fn session_id_by_connection_id(&self, connection_id: TcpConnectionId) -> (r: Option<
        SessionId,
    >)
        requires
            self.well_formed(),
        ensures
            r == (match self.connections@.by_connection(connection_id.value) {
                Some(entry) => Some(entry.session_id),
                None => None,
            }),
    {
        match self.connections.lookup_by_connection_id(connection_id) {
            Some(entry) => Some(entry.session_id),
            None => None,
        }
    }

    pub fn forget_session(&mut self, session_id: SessionId)
        requires
            old(self).well_formed(),
        ensures
            final(self).well_formed(),
            *final(self) == (TcpLookupState {
                connections: final(self).connections,
                ..*old(self)
            }),
            final(self).connections@ == old(self).connections@.forgotten(session_id.value),
    {
        self.connections.forget_session(session_id);
    }

    pub fn forget_pending_open(&mut self, session_id: SessionId)
        requires
            old(self).well_formed(),
        ensures
            final(self).well_formed(),
            *final(self) == (TcpLookupState { pending: final(self).pending, ..*old(self) }),
            final(self).pending@ == old(self).pending@.forgotten(session_id.value),
    {
        self.pending.forget_session(session_id);
    }

    pub fn pending_open_capabilities(&self, session_id: SessionId) -> (r: Option<TcpCapabilities>)
        requires
            self.well_formed(),
        ensures
            r == self.offered(session_id),
    {
        match self.pending.lookup_by_session(session_id) {
            Some(entry) => Some(entry.capabilities),
            None => None,
        }
    }

    /// Makes the routes follow a connection's state. `true` asks to close its
    /// session.
    pub fn publish_connection<C: CongestionController>(
        &mut self,
        session_id: SessionId,
        connection: &TcpConnection<C>,
    ) -> (r: bool)
        requires
            old(self).well_formed(),
            old(self).has_room(session_id, *connection),
        ensures
            final(self).well_formed(),
            r == (connection.state == TcpState::Closed),
            *final(self) == (TcpLookupState {
                connections: final(self).connections,
                pending: final(self).pending,
                ..*old(self)
            }),
            final(self).connections@ == old(self).published_connections(session_id, *connection),
            final(self).pending@ == old(self).published_pending(session_id, *connection),
    {
        let pending_capabilities = self.pending_open_capabilities(session_id);
        self.forget_session(session_id);
        self.forget_pending_open(session_id);
        proof {
            let key = session_id.value;
            let before = *old(self);
            before.connections.lemma_finite();
            before.pending.lemma_finite();
            assert(self.connections@.sessions =~= before.connections@.sessions.remove(key));
            assert(self.connections@.sessions.dom() =~= before.connections@.sessions.dom().remove(
                key,
            ));
            assert(self.pending@.sessions =~= before.pending@.sessions.remove(key));
            assert(self.pending@.sessions.dom() =~= before.pending@.sessions.dom().remove(key));
        }
        match connection.state() {
            TcpState::Closed => true,
            TcpState::SynSent => {
                let capabilities = match pending_capabilities {
                    Some(capabilities) => capabilities,
                    None => TcpCapabilities::default(),
                };
                self.remember_pending_open(
                    TcpPendingRouteEntry {
                        session_id,
                        local: connection.local(),
                        remote: connection.remote(),
                        owner: connection.owner_worker(),
                        next: connection.next_node(),
                        capabilities,
                    },
                );
                false
            },
            _ => {
                self.remember_session(
                    TcpConnectionRouteEntry {
                        session_id,
                        connection_id: connection.connection_id(),
                        local: connection.local(),
                        remote: connection.remote(),
                        owner: connection.owner_worker(),
                        next: connection.next_node(),
                    },
                );
                false
            },
        }
    }

    /// The initial sequence number for a new connection.
    pub fn next_initial_sequence(&mut self, local: SocketAddress, remote: SocketAddress) -> (r: u32)
        ensures
            r == stirred_iss(old(self).next_iss, local, remote),
            *final(self) == (TcpLookupState {
                next_iss: old(self).next_iss.wrapping_add(TCP_ISS_STEP),
                ..*old(self)
            }),
    {
        let ports: u32 = local.port as u32 * 0x1_0000 + remote.port as u32;
        let addresses: u32 = match (local.ip, remote.ip) {
            (IpAddress::V4(local), IpAddress::V4(remote)) => local ^ ((remote << 13) | (remote
                >> 19)),
            (IpAddress::V6(local), IpAddress::V6(remote)) => {
                let low: u32 = (remote % 0x1_0000_0000) as u32;
                ((local % 0x1_0000_0000) as u32) ^ ((local / 0x1_0000_0000_0000_0000
                    % 0x1_0000_0000) as u32) ^ ((low << 7) | (low >> 25))
            },
            _ => 0x9e37_79b9,
        };
        let value: u32 = self.next_iss ^ ports ^ addresses;
        self.next_iss = self.next_iss.wrapping_add(TCP_ISS_STEP);
        if value == 0 {
            1
        } else {
            value
        }
    }

    /// What a peer granted us for fast opens.
    pub fn fast_open_cookie(&self, local: SocketAddress, remote: SocketAddress) -> (r: Option<
        TcpFastOpenGrant,
    >)
        requires
            self.well_formed(),
        ensures
            r == (match tuple::tuple_of(local, remote) {
                Some(key) if self.fast_open_cache@.contains_key(key) => Some(
                    self.fast_open_cache@[key],
                ),
                _ => None,
            }),
    {
        let Some(key) = tcp_tuple(local, remote) else {
            return None;
        };
        self.fast_open_cache.lookup(key)
    }

    /// Remembers what a peer granted us for fast opens.
    pub fn remember_fast_open_cookie(
        &mut self,
        local: SocketAddress,
        remote: SocketAddress,
        cookie: TcpFastOpenCookie,
        max_segment_size: Option<u16>,
    )
        requires
            old(self).well_formed(),
        ensures
            final(self).well_formed(),
            *final(self) == (TcpLookupState {
                fast_open_cache: final(self).fast_open_cache,
                ..*old(self)
            }),
            final(self).fast_open_cache@ == (match tuple::tuple_of(local, remote) {
                Some(key) => old(self).fast_open_cache@.insert(
                    key,
                    (TcpFastOpenGrant { cookie, max_segment_size }),
                ),
                None => old(self).fast_open_cache@,
            }),
    {
        let Some(key) = tcp_tuple(local, remote) else {
            return;
        };
        self.fast_open_cache.insert(key, TcpFastOpenGrant { cookie, max_segment_size });
    }

    /// A fast open cookie for a peer of a listener.
    pub fn fast_open_cookie_for_listener(
        &mut self,
        listener_id: TcpLookupId,
        local: SocketAddress,
        remote: SocketAddress,
        now_secs: u64,
    ) -> (r: TcpFastOpenCookie)
        requires
            old(self).well_formed(),
        ensures
            final(self).well_formed(),
            *final(self) == (TcpLookupState {
                fast_open_secrets: final(self).fast_open_secrets,
                ..*old(self)
            }),
            ({
                let epoch = epoch_at(now_secs, TCP_FAST_OPEN_COOKIE_ROTATION_SECS);
                &&& cookies::key_ready(
                    old(self).fast_open_secrets@,
                    final(self).fast_open_secrets@,
                    listener_id,
                    epoch,
                    TCP_FAST_OPEN_COOKIE_PREVIOUS_EPOCH_WINDOW,
                )
                &&& r.len == TCP_FAST_OPEN_COOKIE_LEN
                &&& r@ == cookies::fast_open_bytes(
                    final(self).fast_open_secrets@[(listener_id, epoch)],
                    listener_id,
                    local,
                    remote,
                    epoch,
                )
            }),
    {
        let epoch: u32 = cookie_epoch(now_secs, TCP_FAST_OPEN_COOKIE_ROTATION_SECS);
        self.fast_open_secrets.fast_open_cookie_for_listener_in_epoch(
            listener_id,
            local,
            remote,
            epoch,
        )
    }

    /// Whether a fast open cookie is one that a peer of a listener was given.
    pub fn validate_fast_open_cookie(
        &mut self,
        listener_id: TcpLookupId,
        local: SocketAddress,
        remote: SocketAddress,
        cookie: &[u8],
        now_secs: u64,
    ) -> (r: bool)
        requires
            old(self).well_formed(),
        ensures
            final(self).well_formed(),
            *final(self) == (TcpLookupState {
                fast_open_secrets: final(self).fast_open_secrets,
                ..*old(self)
            }),
            cookies::fast_open_validation(
                old(self).fast_open_secrets@,
                final(self).fast_open_secrets@,
                listener_id,
                local,
                remote,
                cookie@,
                epoch_at(now_secs, TCP_FAST_OPEN_COOKIE_ROTATION_SECS),
                r,
            ),
    {
        let epoch: u32 = cookie_epoch(now_secs, TCP_FAST_OPEN_COOKIE_ROTATION_SECS);
        self.fast_open_secrets.validate_fast_open_cookie_in_epoch(
            listener_id,
            local,
            remote,
            cookie,
            epoch,
        )
    }

    /// The SYN cookie that answers a client's SYN.
    pub fn listener_cookie_for_syn(
        &mut self,
        listener_id: TcpLookupId,
        local: SocketAddress,
        remote: SocketAddress,
        client_sequence: u32,
        now_secs: u64,
    ) -> (r: u32)
        requires
            old(self).well_formed(),
        ensures
            final(self).well_formed(),
            *final(self) == (TcpLookupState {
                listener_cookie_secrets: final(self).listener_cookie_secrets,
                ..*old(self)
            }),
            ({
                let epoch = epoch_at(now_secs, TCP_LISTENER_COOKIE_ROTATION_SECS);
                &&& cookies::key_ready(
                    old(self).listener_cookie_secrets@,
                    final(self).listener_cookie_secrets@,
                    listener_id,
                    epoch,
                    TCP_LISTENER_COOKIE_PREVIOUS_EPOCH_WINDOW,
                )
                &&& r == cookies::listener_word(
                    final(self).listener_cookie_secrets@[(listener_id, epoch)],
                    listener_id,
                    local,
                    remote,
                    client_sequence,
                    epoch,
                )
            }),
    {
        let epoch: u32 = cookie_epoch(now_secs, TCP_LISTENER_COOKIE_ROTATION_SECS);
        self.listener_cookie_secrets.listener_cookie_for_syn_in_epoch(
            listener_id,
            local,
            remote,
            client_sequence,
            epoch,
        )
    }

    /// Whether a SYN cookie is the one that a client's SYN was answered with.
    pub fn validate_listener_cookie(
        &mut self,
        listener_id: TcpLookupId,
        local: SocketAddress,
        remote: SocketAddress,
        client_sequence: u32,
        cookie: u32,
        now_secs: u64,
    ) -> (r: bool)
        requires
            old(self).well_formed(),
        ensures
            final(self).well_formed(),
            *final(self) == (TcpLookupState {
                listener_cookie_secrets: final(self).listener_cookie_secrets,
                ..*old(self)
            }),
            cookies::listener_validation(
                old(self).listener_cookie_secrets@,
                final(self).listener_cookie_secrets@,
                listener_id,
                local,
                remote,
                client_sequence,
                cookie,
                epoch_at(now_secs, TCP_LISTENER_COOKIE_ROTATION_SECS),
                r,
            ),
    {
        let epoch: u32 = cookie_epoch(now_secs, TCP_LISTENER_COOKIE_ROTATION_SECS);
        self.listener_cookie_secrets.validate_listener_cookie_in_epoch(
            listener_id,
            local,
            remote,
            client_sequence,
            cookie,
            epoch,
        )
    }

    /// Admits a SYN for a listener.
    pub fn begin_listener_pending(
        &mut self,
        listener_id: TcpLookupId,
        local: SocketAddress,
        remote: SocketAddress,
        client_sequence: u32,
        advertised_window: u16,
        capabilities: TcpCapabilities,
        timestamp: Option<TcpTimestampOption>,
        backlog: usize,
        now_secs: u64,
    ) -> (r: bool)
        requires
            old(self).well_formed(),
        ensures
            final(self).well_formed(),
            *final(self) == (TcpLookupState {
                listener_pending: final(self).listener_pending,
                ..*old(self)
            }),
            ({
                let epoch = epoch_at(now_secs, TCP_LISTENER_PENDING_ROTATION_SECS);
                let entry = TcpListenerPendingEntry {
                    listener_id,
                    local: local.spec_endpoint(),
                    remote: remote.spec_endpoint(),
                    client_sequence,
                    advertised_window,
                    capabilities,
                    timestamp,
                    created_epoch: epoch,
                };
                let left = listener_pending::pruned(old(self).listener_pending@, epoch);
                &&& r == listener_pending::admits(left, entry, backlog)
                &&& final(self).listener_pending@ == (if r {
                    left.insert(entry.key(), entry)
                } else {
                    left
                })
            }),
    {
        let epoch: u32 = cookie_epoch(now_secs, TCP_LISTENER_PENDING_ROTATION_SECS);
        self.listener_pending.begin(
            listener_id,
            local,
            remote,
            client_sequence,
            advertised_window,
            capabilities,
            timestamp,
            backlog,
            epoch,
        )
    }

    /// The handshake that waits for a listener.
    pub fn listener_pending(
        &mut self,
        listener_id: TcpLookupId,
        local: SocketAddress,
        remote: SocketAddress,
        now_secs: u64,
    ) -> (r: Option<TcpListenerPendingEntry>)
        requires
            old(self).well_formed(),
        ensures
            final(self).well_formed(),
            *final(self) == (TcpLookupState {
                listener_pending: final(self).listener_pending,
                ..*old(self)
            }),
            ({
                let epoch = epoch_at(now_secs, TCP_LISTENER_PENDING_ROTATION_SECS);
                let left = listener_pending::pruned(old(self).listener_pending@, epoch);
                let key = tuple::key_of(local, remote);
                &&& final(self).listener_pending@ == left
                &&& r == (if left.contains_key(key) && left[key].listener_id == listener_id {
                    Some(left[key])
                } else {
                    None
                })
            }),
    {
        let epoch: u32 = cookie_epoch(now_secs, TCP_LISTENER_PENDING_ROTATION_SECS);
        self.listener_pending.get(listener_id, local, remote, epoch)
    }

    /// Whether a handshake between two addresses waits for any listener.
    pub fn has_listener_pending(
        &mut self,
        local: SocketAddress,
        remote: SocketAddress,
        now_secs: u64,
    ) -> (r: bool)
        requires
            old(self).well_formed(),
        ensures
            final(self).well_formed(),
            *final(self) == (TcpLookupState {
                listener_pending: final(self).listener_pending,
                ..*old(self)
            }),
            final(self).listener_pending@ == listener_pending::pruned(
                old(self).listener_pending@,
                epoch_at(now_secs, TCP_LISTENER_PENDING_ROTATION_SECS),
            ),
            r == final(self).listener_pending@.contains_key(tuple::key_of(local, remote)),
    {
        let epoch: u32 = cookie_epoch(now_secs, TCP_LISTENER_PENDING_ROTATION_SECS);
        self.listener_pending.contains(local, remote, epoch)
    }

    /// Takes a handshake that is done, or given up, out.
    pub fn finish_listener_pending(
        &mut self,
        listener_id: TcpLookupId,
        local: SocketAddress,
        remote: SocketAddress,
    )
        requires
            old(self).well_formed(),
        ensures
            final(self).well_formed(),
            *final(self) == (TcpLookupState {
                listener_pending: final(self).listener_pending,
                ..*old(self)
            }),
            ({
                let before = old(self).listener_pending@;
                let key = tuple::key_of(local, remote);
                final(self).listener_pending@ == (if before.contains_key(key)
                    && before[key].listener_id == listener_id {
                    before.remove(key)
                } else {
                    before
                })
            }),
    {
        self.listener_pending.finish(listener_id, local, remote);
    }

    pub fn listener_pending_contains(
        &self,
        listener_id: TcpLookupId,
        local: SocketAddress,
        remote: SocketAddress,
    ) -> (r: bool)
        requires
            self.well_formed(),
        ensures
            ({
                let key = tuple::key_of(local, remote);
                r == (self.listener_pending@.contains_key(key)
                    && self.listener_pending@[key].listener_id == listener_id)
            }),
    {
        self.listener_pending.has_entry(listener_id, local, remote)
    }

    pub fn listener_pending_len(&self, listener_id: TcpLookupId) -> (r: u64)
        requires
            self.well_formed(),
        ensures
            r == listener_pending::waiting_for(self.listener_pending@, listener_id).len(),
    {
        self.listener_pending.entry_count(listener_id)
    }
}

/// The epoch that a time falls into.
pub open spec fn epoch_at(now_secs: u64, rotation_secs: u64) -> u32 {
    ((now_secs as int / rotation_secs as int) % 0x1_0000_0000) as u32
}

/// A published connection is found by its tuple, and leads to the stage that its
/// state calls for, until it closes.
pub proof fn published_connection_is_routed<C: CongestionController>(
    state: TcpLookupState,
    after: TcpLookupState,
    session_id: SessionId,
    connection: TcpConnection<C>,
    local: SocketAddress,
)
    requires
        state.well_formed(),
        connection.local == Some(local),
        tuple::tuple_of(local, connection.remote) is Some,
        after.connections@ == state.published_connections(session_id, connection),
        after.pending@ == state.published_pending(session_id, connection),
        connection.state == TcpState::SynSent ==> !state.connections@.tuples.contains_key(
            tuple::key_of(local, connection.remote),
        ),
    ensures
        connection.state != TcpState::Closed ==> after.route_of(local, connection.remote) == Some(
            TcpRoute {
                session_id,
                owner: connection.owner_worker,
                next: connection_model::stage_of(connection.state),
            },
        ),
        connection.state == TcpState::Closed ==> after.connections@.by_session(session_id.value)
            is None && after.pending@.by_session(session_id.value) is None,
{
}

/// A segment goes to the connection that the peer knows of, and only where there is
/// none, to the one that we open; between addresses of two IP versions there is
/// neither.
pub proof fn known_connection_comes_first(
    state: TcpLookupState,
    local: SocketAddress,
    remote: SocketAddress,
)
    ensures
        ({
            let key = tuple::key_of(local, remote);
            let known = state.connections@.by_tuple(key);
            let opening = state.pending@.by_tuple(key);
            let route = state.route_of(local, remote);
            &&& (local.ip is V4) != (remote.ip is V4) ==> route is None
            &&& (local.ip is V4) == (remote.ip is V4) ==> {
                &&& known matches Some(entry) ==> route == Some(
                    TcpRoute { session_id: entry.session_id, owner: entry.owner, next: entry.next },
                )
                &&& known is None ==> (opening matches Some(entry) ==> route == Some(
                    TcpRoute { session_id: entry.session_id, owner: entry.owner, next: entry.next },
                ))
                &&& known is None && opening is None ==> route is None
            }
            &&& state.connection_route_of(local, remote) is Some ==> state.connection_route_of(
                local,
                remote,
            ) == route
        }),
{
}

/// Only address and port decide where a segment goes, of each side.
pub proof fn route_follows_address_and_port(
    state: TcpLookupState,
    local: SocketAddress,
    remote: SocketAddress,
    same_local: SocketAddress,
    same_remote: SocketAddress,
)
    requires
        local.ip == same_local.ip && local.port == same_local.port,
        remote.ip == same_remote.ip && remote.port == same_remote.port,
    ensures
        state.route_of(local, remote) == state.route_of(same_local, same_remote),
        tuple::key_of(local, remote) == tuple::key_of(same_local, same_remote),
{
}

/// Different addresses or ports, on either side, are different tuples.
pub proof fn tuples_are_distinct(
    local: SocketAddress,
    remote: SocketAddress,
    other_local: SocketAddress,
    other_remote: SocketAddress,
)
    ensures
        tuple::key_of(local, remote) == tuple::key_of(other_local, other_remote) <==> local.ip
            == other_local.ip && local.port == other_local.port && remote.ip == other_remote.ip
            && remote.port == other_remote.port,
{
}

/// Publishing a connection leaves its session in one of the two indexes at most: among
/// the opening ones while it opens, among the known ones once it is known.
pub proof fn published_connection_stands_in_one_index<C: CongestionController>(
    state: TcpLookupState,
    session_id: SessionId,
    connection: TcpConnection<C>,
)
    ensures
        (state.published_pending(session_id, connection).by_session(session_id.value) is Some) == (
        connection.state == TcpState::SynSent),
        (state.published_connections(session_id, connection).by_session(session_id.value) is Some)
            == (connection.state != TcpState::SynSent && connection.state != TcpState::Closed),
        state.published_connections(session_id, connection).by_session(
            session_id.value,
        ) matches Some(entry) ==> {
            &&& entry.session_id == session_id
            &&& entry.connection_id == connection.connection_id
            &&& entry.local == connection.local && entry.remote == connection.remote
            &&& entry.owner == connection.owner_worker
        },
        state.published_pending(session_id, connection).by_session(
            session_id.value,
        ) matches Some(entry) ==> {
            &&& entry.session_id == session_id
            &&& entry.local == connection.local && entry.remote == connection.remote
            &&& entry.owner == connection.owner_worker
            &&& state.offered(session_id) matches Some(offer) ==> entry.capabilities == offer
        },
{
}

/// Epochs last as long as they are told to.
pub proof fn epochs_last_their_time(now_secs: u64, rotation_secs: u64)
    requires
        0 < rotation_secs,
        now_secs as int / rotation_secs as int <= u32::MAX,
    ensures
        epoch_at(now_secs, rotation_secs) * rotation_secs <= now_secs,
        now_secs < (epoch_at(now_secs, rotation_secs) + 1) * rotation_secs,
{
    let quotient = now_secs as int / rotation_secs as int;
    assert(quotient * rotation_secs <= now_secs < (quotient + 1) * rotation_secs)
        by (nonlinear_arith)
        requires
            quotient == now_secs as int / rotation_secs as int,
            0 < rotation_secs,
    ;
    assert(0 <= quotient) by (nonlinear_arith)
        requires
            quotient == now_secs as int / rotation_secs as int,
            0 < rotation_secs,
    ;
}

/// What was offered when an open began is kept while it runs, and each index takes
/// 1024 sessions.
pub proof fn opening_keeps_its_offer<C: CongestionController>(
    state: TcpLookupState,
    session_id: SessionId,
    connection: TcpConnection<C>,
)
    requires
        state.pending@.well_formed(),
        connection.state == TcpState::SynSent,
    ensures
        state.pending@.by_session(session_id.value) matches Some(entry) ==> (
        state.published_pending(session_id, connection).by_session(session_id.value) matches Some(
            again,
        ) && again.capabilities == entry.capabilities),
        state.pending@.by_session(session_id.value) is None ==> (state.published_pending(
            session_id,
            connection,
        ).by_session(session_id.value) matches Some(first) && first.capabilities
            == types::no_capabilities()),
        state.has_room(session_id, connection) <==> (state.pending@.by_session(session_id.value)
            is Some || state.pending@.sessions.dom().len() < 1024),
{
}

} // verus!
