use hammer_transport::collections::hashing::{fold_u128, hash_words, splitmix64};
use hammer_transport::collections::indexed::IndexedValues;
use hammer_transport::collections::pool::{
    pool_index_from_bihash_value, pool_index_to_bihash_value, Pool, PoolIndex,
};
use hammer_transport::collections::table::KeyTable;
use hammer_transport::congestion::BbrController;
use hammer_transport::tcp::connection_model::TcpConnection;
use hammer_transport::tcp::control_plane::{listener_in_snapshot, TcpInputControlPlane, TcpMain};
use hammer_transport::tcp::cookies::cookie_epoch;
use hammer_transport::tcp::listener_pending::TcpListenerPendingTable;
use hammer_transport::tcp::listeners::{
    TcpIpv4ListenerAddress, TcpIpv6ListenerAddress, TcpListenerTable, TcpLookupValue,
    TcpV4ListenerKey, TcpV6ListenerKey,
};
use hammer_transport::tcp::lookup::{TcpFastOpenGrant, TcpLookupState, TcpRoute};
use hammer_transport::tcp::route_opaque::{
    read_session_id, read_session_route_opaque, write_session_route_opaque, TcpRouteOpaque,
};
use hammer_transport::tcp::routes::{
    SessionId, TcpConnectionRouteEntry, TcpConnectionRouteIndex, TcpPendingRouteEntry,
    TCP_ROUTE_CAPACITY,
};
use hammer_transport::tcp::tuple::tcp_tuple;
use hammer_transport::tcp::types::{
    data_worker, DataWorkerId, IpAddress, SocketAddress, TcpCapabilities, TcpConnectionId,
    TcpFastOpenCookie, TcpState,
};
use hammer_transport::tcp::TcpInputNext;

const NOW_SECS: u64 = 1_700_000_000;

fn v4(a: u32, b: u32, c: u32, d: u32, port: u16) -> SocketAddress {
    SocketAddress::new(IpAddress::V4((a << 24) + (b << 16) + (c << 8) + d), port)
}

fn worker_state() -> TcpLookupState {
    TcpLookupState::new(DataWorkerId::new(0))
}

fn socket_pair() -> (SocketAddress, SocketAddress) {
    (v4(192, 0, 2, 10, 443), v4(198, 51, 100, 20, 50_000))
}

fn other_remote() -> SocketAddress {
    v4(198, 51, 100, 21, 50_000)
}

fn begin(
    state: &mut TcpLookupState,
    local: SocketAddress,
    remote: SocketAddress,
    client_sequence: u32,
    advertised_window: u16,
    backlog: usize,
) -> bool {
    state.begin_listener_pending(
        7,
        local,
        remote,
        client_sequence,
        advertised_window,
        TcpCapabilities::default(),
        None,
        backlog,
        NOW_SECS,
    )
}

fn waiting(
    state: &mut TcpLookupState,
    local: SocketAddress,
    remote: SocketAddress,
) -> Option<(u32, u16, TcpCapabilities, bool)> {
    state.listener_pending(7, local, remote, NOW_SECS).map(|entry| {
        (
            entry.client_sequence,
            entry.advertised_window,
            entry.capabilities,
            entry.timestamp.is_some(),
        )
    })
}

#[test]
fn tcp_listener_key_works_as_bihash_key() {
    let key = TcpV4ListenerKey::new(0, 0x7f00_0001, 7300);
    let mut table: KeyTable<TcpV4ListenerKey> = KeyTable::new(8);

    table.insert(key, 77);

    assert_eq!(table.lookup(key), Some(77));
    assert_eq!(table.lookup(TcpV4ListenerKey::new(0, 0x7f00_0001, 7301)), None);
    table.remove(key);
    assert_eq!(table.lookup(key), None);
}

#[test]
fn pool_index_bihash_value_round_trip() {
    let index = PoolIndex::new(17, 23);
    let value = pool_index_to_bihash_value(index);

    assert_eq!(pool_index_from_bihash_value(value), index);
}

#[test]
fn fast_open_cookie_validation_accepts_cookie_for_current_epoch() {
    let mut state = worker_state();
    let (local, remote) = socket_pair();

    let cookie = state
        .fast_open_secrets
        .fast_open_cookie_for_listener_in_epoch(7, local, remote, 42);

    assert!(state.fast_open_secrets.validate_fast_open_cookie_in_epoch(
        7,
        local,
        remote,
        &cookie.to_vec(),
        42
    ));
}

fn connection_entry(
    session: SessionId,
    local: SocketAddress,
    remote: SocketAddress,
) -> TcpConnectionRouteEntry {
    TcpConnectionRouteEntry {
        session_id: session,
        connection_id: None,
        local: Some(local),
        remote,
        owner: DataWorkerId::new(0),
        next: TcpInputNext::Established,
    }
}

#[test]
fn tcp_connection_route_index_bihash_keeps_v4_and_v6_routes() {
    let mut index = TcpConnectionRouteIndex::empty();
    let owner = DataWorkerId::new(0);
    let v4_session = SessionId::from_raw(pool_index_to_bihash_value(PoolIndex::new(1, 1)));
    let v6_session = SessionId::from_raw(pool_index_to_bihash_value(PoolIndex::new(2, 1)));
    let v4_local = v4(10, 0, 0, 1, 1000);
    let v4_remote = v4(10, 0, 0, 2, 2000);
    let v6_local = SocketAddress::new(IpAddress::V6(1), 1001);
    let v6_remote = SocketAddress::new(IpAddress::V6(0), 2001);

    index.upsert(connection_entry(v4_session, v4_local, v4_remote));
    index.upsert(connection_entry(v6_session, v6_local, v6_remote));

    let found = index.lookup_by_tuple(v4_local, v4_remote).expect("v4 route");
    assert_eq!(
        (found.session_id, found.owner, found.next),
        (v4_session, owner, TcpInputNext::Established)
    );
    let found = index.lookup_by_tuple(v6_local, v6_remote).expect("v6 route");
    assert_eq!(
        (found.session_id, found.owner, found.next),
        (v6_session, owner, TcpInputNext::Established)
    );
}

fn listener_value() -> TcpLookupValue {
    TcpLookupValue {
        id: 7,
        owner_worker: DataWorkerId::new(2),
        capabilities: TcpCapabilities {
            max_segment_size: Some(1200),
            window_scale: Some(4),
            sack: true,
            timestamps: true,
            ecn: true,
            accurate_ecn: false,
            fast_open: true,
        },
    }
}

#[test]
fn tcp_listener_lookup_bihash_preserves_lookup_value() {
    let key = TcpV4ListenerKey::new(0, 0x7f00_0001, 7300);
    let value = listener_value();
    let mut table = TcpListenerTable::<TcpIpv4ListenerAddress>::empty();

    table.insert(key, value);

    assert_eq!(table.lookup(key), Some(value));
}

#[test]
fn tcp_fast_open_cache_bihash_updates_existing_tuple() {
    let mut state = worker_state();
    let local = v4(127, 0, 0, 1, 8080);
    let remote = v4(127, 0, 0, 2, 50_000);
    let first = TcpFastOpenCookie::from_slice(&[1, 2, 3, 4]).expect("first cookie");
    let second = TcpFastOpenCookie::from_slice(&[5, 6, 7, 8]).expect("second cookie");

    state.remember_fast_open_cookie(local, remote, first, Some(1200));
    state.remember_fast_open_cookie(local, remote, second, Some(1300));

    assert_eq!(
        state.fast_open_cookie(local, remote),
        Some(TcpFastOpenGrant { cookie: second, max_segment_size: Some(1300) })
    );
}

#[test]
fn fast_open_cookie_validation_rejects_modified_cookie() {
    let mut state = worker_state();
    let (local, remote) = socket_pair();
    let cookie = state
        .fast_open_secrets
        .fast_open_cookie_for_listener_in_epoch(7, local, remote, 42);
    let mut bytes = cookie.to_vec();
    bytes[15] ^= 0x5a;

    assert!(!state
        .fast_open_secrets
        .validate_fast_open_cookie_in_epoch(7, local, remote, &bytes, 42));
}

#[test]
fn fast_open_cookie_validation_rejects_cookie_for_different_tuple() {
    let mut state = worker_state();
    let (local, remote) = socket_pair();
    let cookie = state
        .fast_open_secrets
        .fast_open_cookie_for_listener_in_epoch(7, local, remote, 42);

    assert!(!state.fast_open_secrets.validate_fast_open_cookie_in_epoch(
        7,
        local,
        other_remote(),
        &cookie.to_vec(),
        42
    ));
}

#[test]
fn fast_open_cookie_validation_rejects_cookie_after_rotation_window() {
    let mut state = worker_state();
    let (local, remote) = socket_pair();

    let cookie = state
        .fast_open_secrets
        .fast_open_cookie_for_listener_in_epoch(7, local, remote, 42)
        .to_vec();

    assert!(state
        .fast_open_secrets
        .validate_fast_open_cookie_in_epoch(7, local, remote, &cookie, 43));
    assert!(!state
        .fast_open_secrets
        .validate_fast_open_cookie_in_epoch(7, local, remote, &cookie, 44));
}

#[test]
fn fast_open_cookie_secret_rotates_with_epoch() {
    let mut state = worker_state();
    let (local, remote) = socket_pair();

    let cookie_a = state
        .fast_open_secrets
        .fast_open_cookie_for_listener_in_epoch(7, local, remote, 42);
    let cookie_b = state
        .fast_open_secrets
        .fast_open_cookie_for_listener_in_epoch(7, local, remote, 43);

    assert_ne!(cookie_a, cookie_b);
    assert_eq!(state.fast_open_secrets.len(), 2);

    state
        .fast_open_secrets
        .fast_open_cookie_for_listener_in_epoch(7, local, remote, 44);

    assert_eq!(state.fast_open_secrets.len(), 2);
    assert!(state.fast_open_secrets.epochs().iter().all(|epoch| *epoch >= 43));
}

#[test]
fn fast_open_cookie_cache_updates_and_uses_tuple_index() {
    let mut state = worker_state();
    let (local, remote) = socket_pair();
    let cookie_a = state
        .fast_open_secrets
        .fast_open_cookie_for_listener_in_epoch(7, local, remote, 42);
    let cookie_b = state
        .fast_open_secrets
        .fast_open_cookie_for_listener_in_epoch(7, local, remote, 43);

    state.remember_fast_open_cookie(local, remote, cookie_a, Some(1_440));
    assert_eq!(state.fast_open_cache.len(), 1);
    assert_eq!(
        state.fast_open_cookie(local, remote),
        Some(TcpFastOpenGrant { cookie: cookie_a, max_segment_size: Some(1_440) })
    );

    state.remember_fast_open_cookie(local, remote, cookie_b, Some(1_460));
    assert_eq!(state.fast_open_cache.len(), 1);
    assert_eq!(
        state.fast_open_cookie(local, remote),
        Some(TcpFastOpenGrant { cookie: cookie_b, max_segment_size: Some(1_460) })
    );
}

#[test]
fn fast_open_cookie_cache_ignores_mixed_family_tuple() {
    let mut state = worker_state();
    let local = v4(192, 0, 2, 10, 443);
    let remote = SocketAddress::new(IpAddress::V6(1), 50_000);
    let cookie = state
        .fast_open_secrets
        .fast_open_cookie_for_listener_in_epoch(7, local, remote, 42);

    state.remember_fast_open_cookie(local, remote, cookie, Some(1_440));

    assert_eq!(state.fast_open_cookie(local, remote), None);
    assert_eq!(state.fast_open_cache.len(), 0);
}

#[test]
fn listener_cookie_validation_accepts_current_epoch_cookie() {
    let mut state = worker_state();
    let (local, remote) = socket_pair();

    let cookie = state
        .listener_cookie_secrets
        .listener_cookie_for_syn_in_epoch(7, local, remote, 100, 42);

    assert!(state
        .listener_cookie_secrets
        .validate_listener_cookie_in_epoch(7, local, remote, 100, cookie, 42));
}

#[test]
fn listener_cookie_validation_rejects_wrong_client_sequence() {
    let mut state = worker_state();
    let (local, remote) = socket_pair();

    let cookie = state
        .listener_cookie_secrets
        .listener_cookie_for_syn_in_epoch(7, local, remote, 100, 42);

    assert!(!state
        .listener_cookie_secrets
        .validate_listener_cookie_in_epoch(7, local, remote, 101, cookie, 42));
}

#[test]
fn listener_cookie_validation_rejects_wrong_tuple() {
    let mut state = worker_state();
    let (local, remote) = socket_pair();
    let cookie = state
        .listener_cookie_secrets
        .listener_cookie_for_syn_in_epoch(7, local, remote, 100, 42);

    assert!(!state
        .listener_cookie_secrets
        .validate_listener_cookie_in_epoch(7, local, other_remote(), 100, cookie, 42));
}

#[test]
fn listener_cookie_secret_rotates_with_epoch() {
    let mut state = worker_state();
    let (local, remote) = socket_pair();

    let cookie_a = state
        .listener_cookie_secrets
        .listener_cookie_for_syn_in_epoch(7, local, remote, 100, 42);
    let cookie_b = state
        .listener_cookie_secrets
        .listener_cookie_for_syn_in_epoch(7, local, remote, 100, 43);

    assert_ne!(cookie_a, cookie_b);
    assert_eq!(state.listener_cookie_secrets.len(), 2);

    state
        .listener_cookie_secrets
        .listener_cookie_for_syn_in_epoch(7, local, remote, 100, 44);

    assert_eq!(state.listener_cookie_secrets.len(), 2);
    assert!(state.listener_cookie_secrets.epochs().iter().all(|epoch| *epoch >= 43));
}

#[test]
fn listener_pending_backlog_tracks_tuple_lifecycle() {
    let mut state = worker_state();
    let (local, remote) = socket_pair();

    assert!(begin(&mut state, local, remote, 100, 4_096, 10));
    assert_eq!(state.listener_pending_len(7), 1);
    assert!(state.listener_pending_contains(7, local, remote));
    assert_eq!(
        waiting(&mut state, local, remote),
        Some((100, 4_096, TcpCapabilities::default(), false))
    );

    state.finish_listener_pending(7, local, remote);

    assert_eq!(state.listener_pending_len(7), 0);
    assert!(!state.listener_pending_contains(7, local, remote));
}

#[test]
fn listener_pending_backlog_rejects_new_tuple_when_full() {
    let mut state = worker_state();
    let local = v4(192, 0, 2, 10, 443);
    let remote_a = v4(198, 51, 100, 20, 50_000);
    let remote_b = v4(198, 51, 100, 21, 50_001);

    assert!(begin(&mut state, local, remote_a, 100, 4_096, 1));
    assert!(!begin(&mut state, local, remote_b, 101, 4_096, 1));
    assert_eq!(state.listener_pending_len(7), 1);
}

#[test]
fn listener_pending_refreshes_existing_tuple_without_consuming_backlog_slot() {
    let mut state = worker_state();
    let (local, remote) = socket_pair();

    assert!(begin(&mut state, local, remote, 100, 4_096, 1));
    assert!(begin(&mut state, local, remote, 101, 8_192, 1));

    assert_eq!(state.listener_pending_len(7), 1);
    assert_eq!(
        waiting(&mut state, local, remote),
        Some((101, 8_192, TcpCapabilities::default(), false))
    );
}

#[test]
fn listener_pending_prunes_expired_entries_before_backlog_check() {
    let mut state = worker_state();
    let local = v4(192, 0, 2, 10, 443);
    let remote_a = v4(198, 51, 100, 20, 50_000);
    let remote_b = v4(198, 51, 100, 21, 50_001);

    assert!(begin(&mut state, local, remote_a, 100, 4_096, 1));

    let expired_epoch = 10;
    assert!(state
        .listener_pending
        .update_created_epoch(7, local, remote_a, expired_epoch));

    assert!(begin(&mut state, local, remote_b, 101, 4_096, 1));
    assert_eq!(state.listener_pending_len(7), 1);
    assert!(state.listener_pending_contains(7, local, remote_b));
    assert!(!state.listener_pending_contains(7, local, remote_a));
}

#[test]
fn listener_pending_index_stays_consistent_after_remove_and_prune() {
    let mut state = worker_state();
    let local = v4(192, 0, 2, 10, 443);
    let remote_a = v4(198, 51, 100, 20, 50_000);
    let remote_b = v4(198, 51, 100, 21, 50_001);

    assert!(begin(&mut state, local, remote_a, 100, 4_096, 2));
    assert!(begin(&mut state, local, remote_b, 101, 4_096, 2));

    state.finish_listener_pending(7, local, remote_a);
    assert_eq!(state.listener_pending_len(7), 1);
    assert_eq!(
        waiting(&mut state, local, remote_b),
        Some((101, 4_096, TcpCapabilities::default(), false))
    );

    assert!(state.listener_pending.update_created_epoch(7, local, remote_b, 10));
    assert!(!state.has_listener_pending(local, remote_b, NOW_SECS));
    assert_eq!(state.listener_pending_len(7), 0);
}

#[test]
fn listener_pending_remove_updates_moved_tuple_index() {
    let mut state = worker_state();
    let local = v4(192, 0, 2, 10, 443);
    let remote_a = v4(198, 51, 100, 20, 50_000);
    let remote_b = v4(198, 51, 100, 21, 50_001);
    let remote_c = v4(198, 51, 100, 22, 50_002);

    assert!(begin(&mut state, local, remote_a, 100, 4_096, 3));
    assert!(begin(&mut state, local, remote_b, 101, 4_096, 3));
    assert!(begin(&mut state, local, remote_c, 102, 4_096, 3));

    state.finish_listener_pending(7, local, remote_b);

    assert_eq!(state.listener_pending_len(7), 2);
    assert_eq!(
        waiting(&mut state, local, remote_a),
        Some((100, 4_096, TcpCapabilities::default(), false))
    );
    assert_eq!(
        waiting(&mut state, local, remote_c),
        Some((102, 4_096, TcpCapabilities::default(), false))
    );
    assert!(!state.has_listener_pending(local, remote_b, NOW_SECS));
}

#[test]
fn pending_handshake_expires_after_the_next_epoch() {
    let (local, remote) = socket_pair();
    let mut table = TcpListenerPendingTable::new();
    assert!(table.begin(7, local, remote, 1, 2, TcpCapabilities::default(), None, 10, 100));
    assert!(table.contains(local, remote, 101));
    assert!(!table.contains(local, remote, 102));
    assert_eq!(table.entry_count(7), 0);
}

#[test]
fn pending_handshake_belongs_to_one_listener() {
    let (local, remote) = socket_pair();
    let mut table = TcpListenerPendingTable::new();
    assert!(table.begin(7, local, remote, 1, 2, TcpCapabilities::default(), None, 10, 100));
    assert!(!table.begin(8, local, remote, 1, 2, TcpCapabilities::default(), None, 10, 100));
    assert!(table.get(8, local, remote, 100).is_none());
    table.finish(8, local, remote);
    assert!(table.has_entry(7, local, remote));
}

#[test]
fn cookies_of_two_states_differ_in_their_secrets() {
    let (local, remote) = socket_pair();
    let mut first = worker_state();
    let mut second = worker_state();
    let ours = first
        .fast_open_secrets
        .fast_open_cookie_for_listener_in_epoch(7, local, remote, 42)
        .to_vec();
    let theirs = second
        .fast_open_secrets
        .fast_open_cookie_for_listener_in_epoch(7, local, remote, 42)
        .to_vec();
    assert_eq!(ours.len(), 16);
    assert_ne!(ours, theirs);
    assert!(!second
        .fast_open_secrets
        .validate_fast_open_cookie_in_epoch(7, local, remote, &ours, 42));
    assert!(!second
        .fast_open_secrets
        .validate_fast_open_cookie_in_epoch(7, local, remote, &[], 42));
}

#[test]
fn cookie_epochs_count_whole_rotations() {
    assert_eq!(cookie_epoch(0, 3_600), 0);
    assert_eq!(cookie_epoch(3_599, 3_600), 0);
    assert_eq!(cookie_epoch(3_600, 3_600), 1);
    assert_eq!(cookie_epoch(1_700_000_000, 15), 113_333_333);
}

#[test]
fn initial_sequence_numbers_mix_the_tuple_in() {
    let mut state = worker_state();
    let (local, remote) = socket_pair();
    let remote_bits: u32 = 0xc633_6414;
    let expected = 81_000u32
        ^ ((443u32 << 16) + 50_000)
        ^ (0xc000_020a ^ remote_bits.rotate_left(13));
    assert_eq!(state.next_initial_sequence(local, remote), expected);
    let expected = (81_000u32 + 64_099)
        ^ ((443u32 << 16) + 50_000)
        ^ (0xc000_020a ^ remote_bits.rotate_left(13));
    assert_eq!(state.next_initial_sequence(local, remote), expected);
}

fn connection_in(state: TcpState) -> TcpConnection<BbrController> {
    let (local, remote) = socket_pair();
    let mut connection = TcpConnection::new(
        Some(TcpConnectionId::new(9)),
        DataWorkerId::new(3),
        local.port(),
        Some(local),
        remote,
    );
    connection.state = state;
    connection
}

#[test]
fn published_connections_are_routed_by_their_state() {
    let mut state = worker_state();
    let (local, remote) = socket_pair();
    let session = SessionId::from_raw(5);

    assert!(!state.publish_connection(session, &connection_in(TcpState::SynSent)));
    assert_eq!(state.session_route_by_tuple(local, remote), None);
    assert_eq!(
        state.pending_route_by_tuple(local, remote),
        Some(TcpRoute {
            session_id: session,
            owner: DataWorkerId::new(3),
            next: TcpInputNext::SynSent
        })
    );

    assert!(!state.publish_connection(session, &connection_in(TcpState::Established)));
    assert_eq!(state.pending_route_by_tuple(local, remote), None);
    assert_eq!(
        state.session_route_by_tuple(local, remote),
        Some(TcpRoute {
            session_id: session,
            owner: DataWorkerId::new(3),
            next: TcpInputNext::Established
        })
    );
    assert_eq!(
        state.session_id_by_connection_id(TcpConnectionId::new(9)),
        Some(session)
    );

    assert!(!state.publish_connection(session, &connection_in(TcpState::FinWait2)));
    assert_eq!(
        state.session_route_by_tuple(local, remote).map(|route| route.next),
        Some(TcpInputNext::RcvProcess)
    );

    assert!(state.publish_connection(session, &connection_in(TcpState::Closed)));
    assert_eq!(state.session_route_by_tuple(local, remote), None);
    assert_eq!(state.session_id_by_connection_id(TcpConnectionId::new(9)), None);
}

fn fill_pending_opens(state: &mut TcpLookupState) {
    let (local, _) = socket_pair();
    for i in 0..TCP_ROUTE_CAPACITY {
        state.remember_pending_open(TcpPendingRouteEntry {
            session_id: SessionId::from_raw(1_000 + i as u64),
            local: Some(local),
            remote: v4(203, 0, 113, 7, 10_000 + i as u16),
            owner: DataWorkerId::new(0),
            next: TcpInputNext::SynSent,
            capabilities: TcpCapabilities::default(),
        });
    }
}

fn fill_connections(state: &mut TcpLookupState) {
    let (local, _) = socket_pair();
    for i in 0..TCP_ROUTE_CAPACITY {
        state.remember_session(TcpConnectionRouteEntry {
            connection_id: Some(TcpConnectionId::new(1_000 + i as u64)),
            ..connection_entry(
                SessionId::from_raw(5_000 + i as u64),
                local,
                v4(203, 0, 113, 8, 10_000 + i as u16),
            )
        });
    }
}

#[test]
fn full_pending_opens_leave_room_for_connections() {
    let mut state = worker_state();
    let (local, remote) = socket_pair();
    let session = SessionId::from_raw(5);
    fill_pending_opens(&mut state);

    assert!(!state.publish_connection(session, &connection_in(TcpState::Established)));
    assert_eq!(
        state.session_route_by_tuple(local, remote).map(|route| route.session_id),
        Some(session)
    );
}

#[test]
fn full_connections_leave_room_for_pending_opens() {
    let mut state = worker_state();
    let (local, remote) = socket_pair();
    let session = SessionId::from_raw(5);
    fill_connections(&mut state);

    assert!(!state.publish_connection(session, &connection_in(TcpState::SynSent)));
    assert_eq!(
        state.pending_route_by_tuple(local, remote).map(|route| route.session_id),
        Some(session)
    );
}

#[test]
fn closed_connections_need_no_room() {
    let mut state = worker_state();
    let (local, remote) = socket_pair();
    let session = SessionId::from_raw(5);
    fill_pending_opens(&mut state);
    fill_connections(&mut state);

    assert!(state.publish_connection(session, &connection_in(TcpState::Closed)));
    assert_eq!(state.session_route_by_tuple(local, remote), None);
    assert_eq!(state.pending_route_by_tuple(local, remote), None);
}

#[test]
fn moved_epochs_clear_only_what_shares_their_bucket() {
    let mut state = worker_state();
    let local = v4(192, 0, 2, 10, 443);
    let remotes = [
        v4(198, 51, 100, 20, 50_000),
        v4(198, 51, 100, 21, 50_001),
        v4(198, 51, 100, 22, 50_002),
    ];
    for remote in remotes {
        assert!(begin(&mut state, local, remote, 100, 4_096, 3));
    }
    let moved = |state: &mut TcpLookupState, remote: SocketAddress, epoch: u32| {
        state.listener_pending.update_created_epoch(7, local, remote, epoch)
    };
    assert!(moved(&mut state, remotes[0], 10));
    assert!(moved(&mut state, remotes[1], 10));
    assert!(state.listener_pending_contains(7, local, remotes[0]));
    assert!(moved(&mut state, remotes[2], 13));
    assert!(!state.listener_pending_contains(7, local, remotes[0]));
    assert!(!state.listener_pending_contains(7, local, remotes[1]));
    assert!(state.listener_pending_contains(7, local, remotes[2]));
    assert!(!moved(&mut state, remotes[0], 13));
}

#[test]
fn new_workers_know_nothing() {
    let mut state = worker_state();
    let (local, remote) = socket_pair();
    assert_eq!(state.session_route_by_tuple(local, remote), None);
    assert_eq!(state.pending_route_by_tuple(local, remote), None);
    assert!(!state.has_listener_pending(local, remote, NOW_SECS));
    assert_eq!(listener_in_snapshot(&state.publish_snapshot(), local), None);
    assert_eq!(state.fast_open_secrets.len(), 0);
    assert_eq!(state.listener_cookie_secrets.len(), 0);
}

#[test]
fn forgotten_sessions_leave_others_alone() {
    let mut index = TcpConnectionRouteIndex::empty();
    let (local, remote) = socket_pair();
    let first = SessionId::from_raw(1);
    let second = SessionId::from_raw(2);
    index.upsert(connection_entry(first, local, remote));
    index.upsert(connection_entry(second, local, other_remote()));
    index.forget_session(first);
    assert!(index.lookup_by_tuple(local, remote).is_none());
    assert!(index.lookup_by_session(first).is_none());
    assert_eq!(
        index.lookup_by_tuple(local, other_remote()).map(|entry| entry.session_id),
        Some(second)
    );
}

#[test]
fn offered_options_are_remembered_while_opening() {
    let mut state = worker_state();
    let (local, remote) = socket_pair();
    let session = SessionId::from_raw(11);
    let capabilities = TcpCapabilities { sack: true, ..TcpCapabilities::default() };
    state.remember_pending_open(TcpPendingRouteEntry {
        session_id: session,
        local: Some(local),
        remote,
        owner: DataWorkerId::new(0),
        next: TcpInputNext::SynSent,
        capabilities,
    });
    assert_eq!(state.pending_open_capabilities(session), Some(capabilities));
    state.forget_pending_open(session);
    assert_eq!(state.pending_open_capabilities(session), None);
}

#[test]
fn published_listeners_are_found_by_all_handles() {
    let mut state = worker_state();
    let local = v4(192, 0, 2, 10, 443);
    state.insert_listener::<TcpIpv4ListenerAddress>(
        TcpV4ListenerKey::new(0, 0xc000_020a, 443),
        7,
        TcpCapabilities::default(),
    );
    state.insert_listener::<TcpIpv6ListenerAddress>(
        TcpV6ListenerKey::new(0, 1, 80),
        8,
        TcpCapabilities::default(),
    );
    let control = TcpInputControlPlane::new();
    let reader = control.clone();
    assert!(reader.lookup_listener(local).is_none());

    control.publish_lookup(state.publish_snapshot());

    assert_eq!(reader.lookup_listener(local).map(|listener| listener.id), Some(7));
    assert_eq!(
        reader
            .lookup_listener(SocketAddress::new(IpAddress::V6(1), 80))
            .map(|listener| listener.id),
        Some(8)
    );
    assert!(reader.lookup_listener(v4(192, 0, 2, 10, 444)).is_none());
    assert_eq!(
        listener_in_snapshot(&reader.snapshot(), local).map(|listener| listener.id),
        Some(7)
    );
    assert!(TcpMain::new().control().lookup_listener(local).is_none());
}

#[test]
fn routes_survive_a_buffer() {
    let route = TcpRoute {
        session_id: SessionId::from_raw(0x1234_5678_9abc_def0),
        owner: DataWorkerId::new(9),
        next: TcpInputNext::Established,
    };
    let mut opaque = TcpRouteOpaque::default();
    assert_eq!(read_session_id(&opaque), None);
    write_session_route_opaque(&mut opaque, route);
    assert_eq!(read_session_route_opaque(&opaque), Some(route));
    assert_eq!(read_session_id(&opaque), Some(route.session_id));

    write_session_route_opaque(&mut opaque, TcpRoute { next: TcpInputNext::Drop, ..route });
    assert_eq!(
        read_session_route_opaque(&opaque),
        Some(TcpRoute { next: TcpInputNext::Punt, ..route })
    );
}

#[test]
fn tuples_are_of_one_ip_version() {
    let (local, remote) = socket_pair();
    assert!(tcp_tuple(local, remote).is_some());
    assert!(tcp_tuple(local, SocketAddress::new(IpAddress::V6(1), 1)).is_none());
}

#[test]
fn worker_indices_fit_thirty_two_bits() {
    assert_eq!(data_worker(3), Some(DataWorkerId::new(3)));
    assert_eq!(data_worker(u32::MAX as usize + 1), None);
}

#[test]
fn pools_reuse_slots_under_new_generations() {
    let mut pool: Pool<u32> = Pool::with_capacity(1);
    let first = pool.insert(10).expect("room");
    assert_eq!(pool.insert(11), None);
    assert_eq!(pool.get(first), Some(10));
    assert_eq!(pool.remove(first), Some(10));
    let second = pool.insert(12).expect("room again");
    assert_eq!(first.slot(), second.slot());
    assert_ne!(first.generation(), second.generation());
    assert_eq!(pool.get(first), None);
    assert_eq!(pool.get(second), Some(12));
    assert_eq!(pool.len(), 1);
}

#[test]
fn indexed_values_are_replaced_in_place() {
    let mut values: IndexedValues<u64, u32> = IndexedValues::new(4);
    values.insert(5, 50);
    values.insert(6, 60);
    values.insert(5, 51);
    assert_eq!(values.lookup(5), Some(51));
    assert_eq!(values.lookup(6), Some(60));
    assert_eq!(values.lookup(7), None);
    assert_eq!(values.len(), 2);
}

#[test]
fn word_hashes_depend_on_every_word() {
    assert_eq!(splitmix64(0), 0xe220_a839_7b1d_cdaf);
    assert_ne!(hash_words(&[1, 2]), hash_words(&[2, 1]));
    assert_ne!(hash_words(&[1]), hash_words(&[1, 0]));
    assert_eq!(fold_u128(0x5_0000_0000_0000_0003), 6);
}

#[test]
fn flow_information_and_scopes_are_in_cookies_but_not_in_keys() {
    let mut state = worker_state();
    let local = SocketAddress::new_v6(1, 443, 0, 0);
    let remote = SocketAddress::new_v6(2, 50_000, 0, 0);
    let flow = SocketAddress::new_v6(2, 50_000, 7, 0);
    let scope = SocketAddress::new_v6(2, 50_000, 0, 7);
    let secrets = &mut state.fast_open_secrets;
    let plain = secrets.fast_open_cookie_for_listener_in_epoch(7, local, remote, 42).to_vec();
    for other in [flow, scope] {
        let cookie = secrets.fast_open_cookie_for_listener_in_epoch(7, local, other, 42).to_vec();
        assert_ne!(cookie, plain);
        assert!(secrets.validate_fast_open_cookie_in_epoch(7, local, other, &cookie, 42));
        assert!(!secrets.validate_fast_open_cookie_in_epoch(7, local, remote, &cookie, 42));
    }
    assert_eq!(
        secrets.fast_open_cookie_for_listener_in_epoch(7, local, remote, 42).to_vec(),
        plain
    );

    assert_eq!(tcp_tuple(local, flow), tcp_tuple(local, remote));
    assert!(begin(&mut state, local, remote, 100, 4_096, 1));
    assert!(state.has_listener_pending(local, flow, NOW_SECS));
    assert!(begin(&mut state, local, scope, 101, 4_096, 1));
    assert_eq!(state.listener_pending_len(7), 1);
    state.remember_session(connection_entry(SessionId::from_raw(3), local, flow));
    assert_eq!(
        state.session_route_by_tuple(local, scope).map(|route| route.session_id),
        Some(SessionId::from_raw(3))
    );
}
