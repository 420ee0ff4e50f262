use hammer_transport::congestion::BbrController;
use hammer_transport::tcp::connection_model::{TcpConnection, TcpConnectionError};
use hammer_transport::tcp::lookup::{TcpFastOpenGrant, TcpLookupState};
use hammer_transport::tcp::rcv_process::tcp_rcv_process_receive;
use hammer_transport::tcp::routes::SessionId;
use hammer_transport::tcp::sequence::TcpSeq;
use hammer_transport::tcp::session_queue::{
    connect_tcp_session, tcp_custom_tx, tcp_handle_expired_timer, tcp_handle_ready_session,
    tcp_on_close, tcp_push_header, tcp_push_headers, tcp_send_params, tcp_timer_plan,
    tcp_timer_plans, TcpTimerPlan,
};
use hammer_transport::tcp::timers::{
    TCP_TIMER_DELAYED_ACK, TCP_TIMER_KEEP_ALIVE, TCP_TIMER_RETRANSMIT, TCP_TIMER_TIME_WAIT,
    TCP_TIME_WAIT_TICKS,
};
use hammer_transport::tcp::types::{
    DataWorkerId, IpAddress, SocketAddress, TcpCapabilities, TcpConnectionId, TcpFastOpenCookie,
    TcpPacket, TcpSegmentFlags, TcpState,
};
use hammer_transport::tcp::TcpInputNext;
use hammer_transport::time::Instant;

fn now() -> Instant {
    Instant::from_nanos(10_000_000_000_000_000)
}

fn local() -> SocketAddress {
    SocketAddress::new(IpAddress::V4(0xc000_020a), 443)
}

fn remote() -> SocketAddress {
    SocketAddress::new(IpAddress::V4(0xc633_6414), 50_001)
}

fn packet(sequence: u32, acknowledgment: Option<u32>, flags: TcpSegmentFlags) -> TcpPacket {
    TcpPacket {
        local: remote(),
        remote: local(),
        sequence: TcpSeq::new(sequence),
        acknowledgment: acknowledgment.map(TcpSeq::new),
        advertised_window: u16::MAX,
        flags,
        capabilities: TcpCapabilities::default(),
        sack_blocks: Vec::new(),
        timestamp: None,
        fast_open_cookie: None,
        ip_ecn: None,
        payload_offset: 0,
        payload_len: 0,
    }
}

fn established_tcp_connection() -> TcpConnection<BbrController> {
    let mut connection = TcpConnection::new(
        Some(TcpConnectionId::new(1)),
        DataWorkerId::new(0),
        local().port(),
        Some(local()),
        remote(),
    );
    let syn = packet(7_000, None, TcpSegmentFlags::syn());
    connection.receive_syn(&syn, 0, now()).expect("accept syn");
    let ack = packet(7_001, Some(connection.snd_nxt()), TcpSegmentFlags::ack());
    connection.receive_final_ack(&ack, now()).expect("accept final ack");
    let sack = TcpCapabilities { sack: true, ..TcpCapabilities::default() };
    connection.set_local_capabilities(sack);
    connection.apply_peer_handshake_capabilities(sack);
    connection
}

#[test]
fn tcp_custom_tx_handles_special_output_without_normal_packetization() {
    let mut connection = established_tcp_connection();
    connection.on_session_close();

    let outcome = tcp_custom_tx(&mut connection, false, now());

    assert!(outcome.emit);
    let segment = outcome.reply.expect("tcp segment");
    assert_eq!(
        segment.flags,
        TcpSegmentFlags { fin: true, ..TcpSegmentFlags::ack() }
    );
    assert_eq!(segment.payload_len(), 0);
    assert!(!outcome.ready);
    assert!(!outcome.closed);
}

#[test]
fn tcp_normal_tx_retains_fifo_until_ack_cleanup() {
    let mut connection = established_tcp_connection();
    let payload = b"ping";
    let initial_snd_nxt = connection.snd_nxt();

    let params = tcp_send_params(&connection, payload.len());
    assert_eq!(params.tx_offset, 0);
    assert_eq!(params.snd_space, payload.len());
    let segment = tcp_push_header(&mut connection, payload.len(), now()).expect("dispatch tx");

    assert_eq!(
        connection.snd_nxt(),
        initial_snd_nxt.wrapping_add(payload.len() as u32)
    );
    assert_eq!(segment.payload_len(), payload.len());
    assert_eq!(segment.sequence, initial_snd_nxt);

    let previous = connection.snd_una();
    let params = tcp_send_params(&connection, payload.len());
    assert_eq!((params.tx_offset, params.snd_space), (payload.len(), 0));
    assert_eq!(connection.take_acked_tx_len(previous), 0);

    let ack = packet(connection.rcv_nxt(), Some(connection.snd_nxt()), TcpSegmentFlags::ack());
    connection.receive_established(&ack, now()).expect("acknowledged");
    assert_eq!(connection.take_acked_tx_len(previous), payload.len() as u32);
    assert_eq!(tcp_send_params(&connection, 0).tx_offset, 0);
}

#[test]
fn tcp_timer_dispatch_uses_exact_timer_token() {
    let mut connection = established_tcp_connection();
    connection.timer_set(TCP_TIMER_DELAYED_ACK);
    connection.timer_set(TCP_TIMER_KEEP_ALIVE);
    let expected_sequence = connection.snd_nxt();

    connection.timer_expire(TCP_TIMER_DELAYED_ACK);
    assert!(connection.timer_is_pending(TCP_TIMER_DELAYED_ACK));
    let outcome = tcp_handle_expired_timer(&mut connection, TCP_TIMER_DELAYED_ACK, now());

    assert!(outcome.emit);
    let segment = outcome.reply.expect("tcp segment");
    assert_eq!(segment.flags, TcpSegmentFlags::ack());
    assert_eq!(segment.payload_len(), 0);
    assert_eq!(segment.sequence, expected_sequence);
    assert!(!connection.timer_is_active(TCP_TIMER_DELAYED_ACK));
    assert!(connection.timer_is_active(TCP_TIMER_KEEP_ALIVE));
}

#[test]
fn session_tcp_delayed_ack_timer_emits_ack_after_first_clean_payload() {
    let mut connection = established_tcp_connection();
    let (sequence, acknowledgment) = (connection.rcv_nxt(), connection.snd_nxt());
    let data = TcpPacket {
        flags: TcpSegmentFlags { psh: true, ..TcpSegmentFlags::ack() },
        payload_len: 5,
        ..packet(sequence, Some(acknowledgment), TcpSegmentFlags::ack())
    };
    let (control, _) = connection.receive_established(&data, now()).expect("receive data");
    assert!(connection.accept_payload(&data).is_some());
    assert!(!connection.on_clean_in_order_payload());
    connection.receive_payload(data.sequence, 0, 5, None, 0);
    assert!(control.is_none());

    assert_eq!(
        tcp_timer_plan(&connection, TCP_TIMER_DELAYED_ACK, now()),
        TcpTimerPlan::Arm { ticks: 1 }
    );

    connection.timer_expire(TCP_TIMER_DELAYED_ACK);
    let outcome = tcp_handle_expired_timer(&mut connection, TCP_TIMER_DELAYED_ACK, now());

    assert!(outcome.emit);
    let segment = outcome.reply.expect("tcp segment");
    assert_eq!(segment.flags, TcpSegmentFlags::ack());
    assert_eq!(segment.payload_len(), 0);
    assert_eq!(segment.acknowledgment, sequence.wrapping_add(5));
}

#[test]
fn tcp_time_wait_expiry_closes_session() {
    let mut connection = established_tcp_connection();
    connection.on_session_close();
    connection.on_tcp_ready(false, now()).expect("fin segment");
    let fin_ack = TcpSegmentFlags { fin: true, ..TcpSegmentFlags::ack() };
    let fin = packet(connection.rcv_nxt(), Some(connection.snd_nxt()), fin_ack);
    tcp_rcv_process_receive(&mut connection, &fin, now());
    assert_eq!(connection.state(), TcpState::TimeWait);
    assert_eq!(
        tcp_timer_plan(&connection, TCP_TIMER_TIME_WAIT, now()),
        TcpTimerPlan::Arm { ticks: TCP_TIME_WAIT_TICKS }
    );

    let mut state = TcpLookupState::new(DataWorkerId::new(0));
    let session_id = SessionId::from_raw(1);
    state.publish_connection(session_id, &connection);
    connection.timer_expire(TCP_TIMER_TIME_WAIT);
    let outcome = tcp_handle_expired_timer(&mut connection, TCP_TIMER_TIME_WAIT, now());

    assert!(outcome.closed);
    assert!(state.publish_connection(session_id, &connection));
    assert_eq!(state.session_route_by_tuple(local(), remote()), None);
}

#[test]
fn closing_sends_a_fin_at_one_position() {
    let mut connection = established_tcp_connection();
    let start = connection.snd_nxt();
    let outcome = tcp_handle_ready_session(&mut connection, true, false, now());
    assert_eq!(connection.state(), TcpState::FinWait1);
    let fin = outcome.reply.expect("fin");
    assert!(fin.flags.fin);
    assert_eq!(fin.sequence, start);
    let outcome = tcp_handle_ready_session(&mut connection, false, false, now());
    assert_eq!(outcome.reply.expect("fin again").sequence, start);
    assert_eq!(connection.snd_nxt(), start + 1);
}

#[test]
fn batches_stop_at_the_first_refusal() {
    let mut connection = established_tcp_connection();
    let start = connection.snd_nxt();
    let pushed = tcp_push_headers(&mut connection, &[10, 20], now());
    assert_eq!(pushed.error, None);
    let places: Vec<(u32, usize)> = pushed
        .segments
        .iter()
        .map(|segment| (segment.sequence, segment.payload_len()))
        .collect();
    assert_eq!(places, vec![(start, 10), (start + 10, 20)]);

    connection.on_session_close();
    let pushed = tcp_push_headers(&mut connection, &[5, 5], now());
    assert!(pushed.segments.is_empty());
    assert!(pushed.error.is_some());
    assert_eq!(connection.snd_nxt(), start + 30);
}

#[test]
fn every_timer_has_a_plan() {
    let connection = established_tcp_connection();
    let plans = tcp_timer_plans(&connection, now());
    for (timer_id, plan) in plans.iter().enumerate() {
        assert_eq!(*plan, tcp_timer_plan(&connection, timer_id as u32, now()));
        if !connection.timer_is_active(timer_id as u32) {
            assert_eq!(*plan, TcpTimerPlan::Cancel);
        }
    }
}

#[test]
fn opened_sessions_offer_what_was_granted() {
    let mut state = TcpLookupState::new(DataWorkerId::new(0));
    let cookie = TcpFastOpenCookie::from_slice(&[1, 2, 3, 4]).expect("cookie");
    state.remember_fast_open_cookie(local(), remote(), cookie, Some(1_200));
    assert_eq!(
        state.fast_open_cookie(local(), remote()),
        Some(TcpFastOpenGrant { cookie, max_segment_size: Some(1_200) })
    );
    let session_id = SessionId::from_raw(4);
    let connection: TcpConnection<BbrController> =
        connect_tcp_session(&mut state, session_id, DataWorkerId::new(0), local(), remote());
    assert_eq!(connection.state(), TcpState::SynSent);
    assert!(connection.timer_is_active(TCP_TIMER_RETRANSMIT));
    assert!(connection.local_capabilities().fast_open);
    assert_eq!(connection.local_capabilities().max_segment_size, Some(1_200));
    assert_eq!(
        state.pending_route_by_tuple(local(), remote()).map(|route| route.next),
        Some(TcpInputNext::SynSent)
    );

    tcp_on_close(&mut state, session_id);
    assert_eq!(state.pending_route_by_tuple(local(), remote()), None);
}

#[test]
fn payload_needs_a_connection_that_sends() {
    let mut connection: TcpConnection<BbrController> = TcpConnection::new(
        None,
        DataWorkerId::new(0),
        local().port(),
        Some(local()),
        remote(),
    );
    let refused: Result<_, TcpConnectionError> = tcp_push_header(&mut connection, 4, now());
    assert!(refused.is_err());
}
