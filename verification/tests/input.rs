use hammer_transport::congestion::BbrController;
use hammer_transport::tcp::connection_model::TcpConnection;
use hammer_transport::tcp::cursor::{tcp_control_cursor, PacketCursor};
use hammer_transport::tcp::errors::TcpError;
use hammer_transport::tcp::input::{
    lookup_for_packet, parse_tcp_input_parts, session_or_listener_pending_input_entry,
    tcp_input_next, tcp_listener_input_entry, IpSummary, IpVersion, TcpInputAction, TcpInputFlags,
    TcpInputParseError, TcpInputSegment, TcpInputTrace,
};
use hammer_transport::tcp::listeners::{
    TcpIpv4ListenerAddress, TcpIpv6ListenerAddress, TcpLookupSnapshot, TcpV4ListenerKey,
    TcpV6ListenerKey,
};
use hammer_transport::tcp::lookup::{TcpLookupState, TcpRoute};
use hammer_transport::tcp::route_opaque::{
    read_session_id, write_session_route_opaque, TcpRouteOpaque,
};
use hammer_transport::tcp::routes::SessionId;
use hammer_transport::tcp::sequence::TcpSeq;
use hammer_transport::tcp::session_queue::connect_tcp_session;
use hammer_transport::tcp::types::{
    DataWorkerId, IpAddress, SocketAddress, TcpCapabilities, TcpConnectionId, TcpPacket,
    TcpSegmentFlags,
};
use hammer_transport::tcp::TcpInputNext;
use hammer_transport::time::Instant;

const PENDING_EPOCH: u32 = 100;
const NO_FLAGS: TcpInputFlags = TcpInputFlags { fin: false, syn: false, rst: false, ack: false };
const ACK: TcpInputFlags = TcpInputFlags { ack: true, ..NO_FLAGS };
const SYN: TcpInputFlags = TcpInputFlags { syn: true, ..NO_FLAGS };
const RST: TcpInputFlags = TcpInputFlags { rst: true, ..NO_FLAGS };

fn now() -> Instant {
    Instant::from_nanos(10_000_000_000_000_000)
}

fn parsed_local(local_port: u16) -> SocketAddress {
    SocketAddress::new(IpAddress::V4(0xc000_0200 + u32::from(local_port as u8)), local_port)
}

fn parsed_remote(local_port: u16) -> SocketAddress {
    SocketAddress::new(IpAddress::V4(0xc633_6400 + u32::from(local_port as u8)), 443)
}

fn established(owner: DataWorkerId, local_port: u16) -> TcpConnection<BbrController> {
    let (local, remote) = (parsed_local(local_port), parsed_remote(local_port));
    let mut connection = TcpConnection::new(
        Some(TcpConnectionId::new(u64::from(local_port))),
        owner,
        local_port,
        Some(local),
        remote,
    );
    let mut packet = TcpPacket {
        local,
        remote,
        sequence: TcpSeq::new(7_000),
        acknowledgment: None,
        advertised_window: u16::MAX,
        flags: TcpSegmentFlags::syn(),
        capabilities: TcpCapabilities::default(),
        sack_blocks: Vec::new(),
        timestamp: None,
        fast_open_cookie: None,
        ip_ecn: None,
        payload_offset: 0,
        payload_len: 0,
    };
    connection.receive_syn(&packet, 0, now()).expect("accept syn");
    packet.sequence = TcpSeq::new(7_001);
    packet.acknowledgment = Some(TcpSeq::new(connection.snd_nxt()));
    packet.flags = TcpSegmentFlags::ack();
    connection.receive_final_ack(&packet, now()).expect("accept final ack");
    connection
}

fn install_tcp_session(owner: DataWorkerId, local_port: u16) -> (TcpLookupState, SessionId) {
    let mut state = TcpLookupState::new(DataWorkerId::new(0));
    let session_id = SessionId::from_raw(17);
    assert!(!state.publish_connection(session_id, &established(owner, local_port)));
    (state, session_id)
}

fn segment(local: SocketAddress, remote: SocketAddress, flags: TcpInputFlags) -> TcpInputSegment {
    TcpInputSegment { version: IpVersion::V4, protocol: 6, local, remote, flags }
}

fn empty_snapshot() -> TcpLookupSnapshot {
    TcpLookupState::new(DataWorkerId::new(0)).publish_snapshot()
}

fn tcp_packet(local_port: u16) -> Vec<u8> {
    let mut packet = vec![0u8; 40];
    packet[0] = 0x45;
    packet[3] = 40;
    packet[8] = 64;
    packet[9] = 6;
    packet[12..16].copy_from_slice(&[198, 51, 100, local_port as u8]);
    packet[16..20].copy_from_slice(&[192, 0, 2, local_port as u8]);
    packet[20..22].copy_from_slice(&443u16.to_be_bytes());
    packet[22..24].copy_from_slice(&local_port.to_be_bytes());
    packet[32] = 0x50;
    packet[33] = 0x10;
    packet
}

fn parse(packet: &[u8]) -> Result<TcpInputSegment, TcpInputParseError> {
    let cursor = tcp_control_cursor(packet).expect("cursor");
    parse_tcp_input_parts(packet, Some(summary(packet)), cursor)
}

fn summary(packet: &[u8]) -> IpSummary {
    IpSummary { version: IpVersion::V4, protocol: 6, packet_len: packet.len(), valid: true }
}

#[test]
fn tcp_input_routes_existing_established_tuple_to_established_node() {
    let (mut state, session_id) = install_tcp_session(DataWorkerId::new(0), 50_044);

    let (entry, listener_pending) = session_or_listener_pending_input_entry(
        &mut state,
        true,
        parsed_local(50_044),
        parsed_remote(50_044),
        ACK,
        PENDING_EPOCH,
    );
    let entry = entry.expect("existing tcp session");
    assert!(!listener_pending);

    assert_eq!(
        (entry.session_id, entry.owner, entry.next),
        (session_id, DataWorkerId::new(0), TcpInputNext::Established)
    );
}

#[test]
fn tcp_input_existing_session_entry_keeps_owner_for_handoff_decision() {
    let (mut state, session_id) = install_tcp_session(DataWorkerId::new(1), 50_055);

    let (entry, listener_pending) = session_or_listener_pending_input_entry(
        &mut state,
        true,
        parsed_local(50_055),
        parsed_remote(50_055),
        ACK,
        PENDING_EPOCH,
    );
    let entry = entry.expect("existing tcp session");
    assert!(!listener_pending);

    assert_eq!(
        (entry.session_id, entry.owner, entry.next),
        (session_id, DataWorkerId::new(1), TcpInputNext::Established)
    );
}

#[test]
fn tcp_input_routes_pending_syn_sent_tuple_to_syn_sent_node() {
    let worker = DataWorkerId::new(0);
    let mut state = TcpLookupState::new(worker);
    let (local, remote) = (parsed_local(50_077), parsed_remote(50_077));
    let session_id = SessionId::from_raw(5);
    let _connection: TcpConnection<BbrController> =
        connect_tcp_session(&mut state, session_id, worker, local, remote);

    let (entry, listener_pending) = session_or_listener_pending_input_entry(
        &mut state,
        true,
        local,
        remote,
        ACK,
        PENDING_EPOCH,
    );
    let entry = entry.expect("pending tcp session");
    assert!(!listener_pending);

    let expected = TcpRoute { session_id, owner: worker, next: TcpInputNext::SynSent };
    assert_eq!(entry, expected);
    assert_eq!(state.session_route_by_tuple(local, remote), None);
    assert_eq!(state.pending_route_by_tuple(local, remote), Some(expected));
}

#[test]
fn tcp_input_handoffs_existing_session_to_owner_worker() {
    let (mut state, session_id) = install_tcp_session(DataWorkerId::new(1), 50_066);

    let action = tcp_input_next(
        &mut state,
        &empty_snapshot(),
        true,
        Some(DataWorkerId::new(0)),
        parse(&tcp_packet(50_066)),
        PENDING_EPOCH,
    );

    let route = TcpRoute {
        session_id,
        owner: DataWorkerId::new(1),
        next: TcpInputNext::Established,
    };
    assert_eq!(action, TcpInputAction::Handoff { route });
}

#[test]
fn tcp_input_preserves_session_route_in_opaque_for_follow_on_nodes() {
    let (mut state, session_id) = install_tcp_session(DataWorkerId::new(0), 50_088);

    let action = tcp_input_next(
        &mut state,
        &empty_snapshot(),
        true,
        None,
        parse(&tcp_packet(50_088)),
        PENDING_EPOCH,
    );
    let mut opaque = TcpRouteOpaque::default();
    match action {
        TcpInputAction::Session { route } => write_session_route_opaque(&mut opaque, route),
        other => panic!("unexpected action {other:?}"),
    }

    assert_eq!(read_session_id(&opaque), Some(session_id));
}

#[test]
fn owners_keep_their_segments() {
    let (mut state, session_id) = install_tcp_session(DataWorkerId::new(1), 50_066);
    let route = TcpRoute {
        session_id,
        owner: DataWorkerId::new(1),
        next: TcpInputNext::Established,
    };
    for handoff in [None, Some(DataWorkerId::new(1))] {
        let action = tcp_input_next(
            &mut state,
            &empty_snapshot(),
            true,
            handoff,
            parse(&tcp_packet(50_066)),
            PENDING_EPOCH,
        );
        assert_eq!(action, TcpInputAction::Session { route });
    }
}

#[test]
fn without_a_queue_there_is_no_session() {
    let (mut state, _) = install_tcp_session(DataWorkerId::new(0), 50_044);
    let action = tcp_input_next(
        &mut state,
        &empty_snapshot(),
        false,
        None,
        parse(&tcp_packet(50_044)),
        PENDING_EPOCH,
    );
    assert_eq!(
        action,
        TcpInputAction::Reject { next: TcpInputNext::Reset, error: TcpError::AckInvalid }
    );
}

#[test]
fn listeners_take_plain_syns_only() {
    assert_eq!(tcp_listener_input_entry(SYN), (TcpInputNext::Listen, None));
    assert_eq!(tcp_listener_input_entry(RST), (TcpInputNext::Drop, None));
    assert_eq!(
        tcp_listener_input_entry(ACK),
        (TcpInputNext::Reset, Some(TcpError::AckInvalid))
    );
    assert_eq!(
        tcp_listener_input_entry(TcpInputFlags { fin: true, ..SYN }),
        (TcpInputNext::Reset, Some(TcpError::AckInvalid))
    );
    assert_eq!(
        tcp_listener_input_entry(NO_FLAGS),
        (TcpInputNext::Reset, Some(TcpError::ConnectionClosed))
    );
    assert_eq!(TcpInputFlags { fin: true, ..ACK }.bits(), 0x11);
    assert_eq!(TcpInputFlags { rst: true, ..SYN }.bits(), 0x06);
}

#[test]
fn listeners_are_looked_up_by_local_address() {
    let mut state = TcpLookupState::new(DataWorkerId::new(0));
    let capabilities = TcpCapabilities::default();
    let local = parsed_local(80);
    let remote = parsed_remote(80);
    let six = SocketAddress::new(IpAddress::V6(7), 80);
    state.insert_listener::<TcpIpv4ListenerAddress>(
        TcpV4ListenerKey::new(0, 0xc000_0250, 80),
        7,
        capabilities,
    );
    state.insert_listener::<TcpIpv6ListenerAddress>(
        TcpV6ListenerKey::new(0, 7, 80),
        8,
        capabilities,
    );
    let snapshot = state.publish_snapshot();
    assert_eq!(lookup_for_packet(&snapshot, local, remote).map(|found| found.id), Some(7));
    assert_eq!(lookup_for_packet(&snapshot, six, six).map(|found| found.id), Some(8));
    assert!(lookup_for_packet(&snapshot, local, six).is_none());

    let mut next = |snapshot: &TcpLookupSnapshot, flags: TcpInputFlags| {
        let parsed = Ok(segment(local, remote, flags));
        tcp_input_next(&mut state, snapshot, true, None, parsed, PENDING_EPOCH)
    };
    assert_eq!(
        next(&snapshot, SYN),
        TcpInputAction::Listener { next: TcpInputNext::Listen }
    );
    assert_eq!(
        next(&snapshot, RST),
        TcpInputAction::Listener { next: TcpInputNext::Drop }
    );
    assert_eq!(
        next(&empty_snapshot(), SYN),
        TcpInputAction::Reject { next: TcpInputNext::Punt, error: TcpError::ConnectionClosed }
    );
    assert_eq!(
        next(&empty_snapshot(), NO_FLAGS),
        TcpInputAction::Reject { next: TcpInputNext::Reset, error: TcpError::ConnectionClosed }
    );
}

#[test]
fn awaited_acknowledgments_go_to_the_listener() {
    let mut state = TcpLookupState::new(DataWorkerId::new(0));
    let (local, remote) = (parsed_local(80), parsed_remote(80));
    assert!(state.listener_pending.begin(
        7,
        local,
        remote,
        1,
        2,
        TcpCapabilities::default(),
        None,
        10,
        PENDING_EPOCH
    ));
    let parsed = Ok(segment(local, remote, ACK));
    assert_eq!(
        tcp_input_next(&mut state, &empty_snapshot(), true, None, parsed, PENDING_EPOCH + 1),
        TcpInputAction::Listener { next: TcpInputNext::Listen }
    );
    assert_eq!(
        tcp_input_next(&mut state, &empty_snapshot(), true, None, parsed, PENDING_EPOCH + 2),
        TcpInputAction::Reject { next: TcpInputNext::Reset, error: TcpError::AckInvalid }
    );
}

#[test]
fn segments_are_read_from_their_packets() {
    let packet = tcp_packet(50_066);
    assert_eq!(
        parse(&packet),
        Ok(segment(parsed_local(50_066), parsed_remote(50_066), ACK))
    );

    let mut six = vec![0u8; 60];
    six[0] = 0x60;
    six[5] = 20;
    six[6] = 6;
    six[23] = 1;
    six[39] = 2;
    six[40..42].copy_from_slice(&50_000u16.to_be_bytes());
    six[42..44].copy_from_slice(&443u16.to_be_bytes());
    six[52] = 0x50;
    six[53] = 0x02;
    let cursor = tcp_control_cursor(&six).expect("cursor");
    let ip = IpSummary { version: IpVersion::V6, protocol: 6, packet_len: 60, valid: true };
    assert_eq!(
        parse_tcp_input_parts(&six, Some(ip), cursor),
        Ok(TcpInputSegment {
            version: IpVersion::V6,
            protocol: 6,
            local: SocketAddress::new(IpAddress::V6(2), 443),
            remote: SocketAddress::new(IpAddress::V6(1), 50_000),
            flags: SYN,
        })
    );
}

#[test]
fn unreadable_segments_are_told_apart() {
    let packet = tcp_packet(50_066);
    let cursor = tcp_control_cursor(&packet).expect("cursor");
    let ip = summary(&packet);
    let bad = Err(TcpInputParseError::BadLength);
    let wrong = TcpInputParseError::WrongProtocol { version: IpVersion::V4, protocol: 17 };
    assert_eq!(parse_tcp_input_parts(&packet, None, cursor), bad);
    assert_eq!(
        parse_tcp_input_parts(&packet, Some(IpSummary { protocol: 17, ..ip }), cursor),
        Err(wrong)
    );
    assert_eq!(
        parse_tcp_input_parts(&packet, Some(IpSummary { valid: false, ..ip }), cursor),
        bad
    );
    let behind = PacketCursor { packet_len: 10, ..cursor };
    assert_eq!(parse_tcp_input_parts(&packet, Some(ip), behind), bad);
    assert_eq!(
        parse_tcp_input_parts(&packet[..19], Some(ip), cursor),
        Err(TcpInputParseError::AddressesMissing)
    );
    assert_eq!(parse_tcp_input_parts(&packet[..39], Some(ip), cursor), bad);

    let mut state = TcpLookupState::new(DataWorkerId::new(0));
    let mut next = |error: TcpInputParseError| {
        tcp_input_next(&mut state, &empty_snapshot(), true, None, Err(error), PENDING_EPOCH)
    };
    assert_eq!(
        next(TcpInputParseError::BadLength),
        TcpInputAction::Reject { next: TcpInputNext::Drop, error: TcpError::Length }
    );
    assert_eq!(
        next(wrong),
        TcpInputAction::Reject { next: TcpInputNext::Drop, error: TcpError::Dispatch }
    );
    assert_eq!(
        next(TcpInputParseError::AddressesMissing),
        TcpInputAction::Fail { error: TcpError::Length }
    );
}

#[test]
fn traces_survive_their_encoding() {
    let parsed = parse(&tcp_packet(50_066));
    let passed = TcpInputTrace::new(parsed, None, 9);
    assert_eq!(passed.source_port, Some(443));
    assert_eq!(passed.destination_port, Some(50_066));
    assert_eq!(passed.flags, 0x10);
    let rejected = TcpInputTrace::new(parsed, Some(3), 9);
    assert_eq!(rejected.source_port, None);
    assert_eq!(rejected.error, Some(3));
    let unread = TcpInputTrace::new(Err(TcpInputParseError::BadLength), Some(1), 0);
    assert_eq!(unread.version, None);
    for trace in [passed, rejected, unread] {
        let mut bytes = Vec::new();
        trace.encode_trace(&mut bytes);
        assert_eq!(TcpInputTrace::decode(&bytes), Some(trace));
        bytes.push(0);
        assert_eq!(TcpInputTrace::decode(&bytes), None);
    }
    assert_eq!(TcpInputTrace::decode(&[]), None);
}
