use hammer_transport::congestion::{
    AckedPacket, BbrController, CongestionController, CongestionMetrics, LostPacket, PacketNumber,
    RttSample,
};
use hammer_transport::tcp::connection_model::{TcpConnection, TcpConnectionError};
use hammer_transport::tcp::ecn::{ace_counter, ace_delta, ace_flags};
use hammer_transport::tcp::recovery_model::{TcpRecoveryAck, TcpSackBlock};
use hammer_transport::tcp::sequence::TcpSeq;
use hammer_transport::tcp::timers::{
    TCP_TIMER_DELAYED_ACK, TCP_TIMER_RETRANSMIT, TCP_TIMER_TIME_WAIT, TCP_TIME_WAIT_TICKS,
};
use hammer_transport::tcp::timestamps::TCP_PAWS_IDLE;
use hammer_transport::tcp::types::{
    DataWorkerId, IpAddress, IpEcnCodepoint, SocketAddress, TcpCapabilities, TcpCloseReason,
    TcpConnectionId, TcpPacket, TcpSegmentFlags, TcpState, TcpTimestampOption,
};
use hammer_transport::time::{Duration, Instant};

fn now() -> Instant {
    Instant::from_nanos(10_000_000_000_000_000)
}

fn millis_later(start: Instant, count: u64) -> Instant {
    start.checked_add(Duration::from_millis(count)).expect("later")
}

fn local() -> SocketAddress {
    SocketAddress::new(IpAddress::V4(0xc000_020a), 443)
}

fn remote() -> SocketAddress {
    SocketAddress::new(IpAddress::V4(0xc633_6414), 50_001)
}

fn flags_of(ack: bool, ece: bool, cwr: bool) -> TcpSegmentFlags {
    TcpSegmentFlags { ack, ece, cwr, ..TcpSegmentFlags::empty() }
}

fn packet(sequence: u32, acknowledgment: Option<u32>, flags: TcpSegmentFlags) -> TcpPacket {
    TcpPacket {
        local: remote(),
        remote: local(),
        sequence: TcpSeq::new(sequence),
        acknowledgment: acknowledgment.map(TcpSeq::new),
        advertised_window: u16::MAX,
        flags,
        capabilities: TcpCapabilities::default(),
        sack_blocks: Vec::new(),
        timestamp: None,
        fast_open_cookie: None,
        ip_ecn: None,
        payload_offset: 0,
        payload_len: 0,
    }
}

fn new_connection<C: CongestionController>(id: u64) -> TcpConnection<C> {
    TcpConnection::new(
        Some(TcpConnectionId::new(id)),
        DataWorkerId::new(0),
        local().port(),
        Some(local()),
        remote(),
    )
}

fn established_for_test<C: CongestionController>() -> TcpConnection<C> {
    let mut connection = new_connection(1);
    let syn = packet(7_000, None, TcpSegmentFlags::syn());
    connection.receive_syn(&syn, 0, now()).expect("accept syn");
    let ack = packet(7_000, Some(connection.snd_nxt()), TcpSegmentFlags::ack());
    connection.receive_final_ack(&ack, now()).expect("accept final ack");
    connection
}

fn sack_only() -> TcpCapabilities {
    TcpCapabilities { sack: true, ..TcpCapabilities::default() }
}

fn established_connection() -> TcpConnection<BbrController> {
    let mut connection = established_for_test();
    connection.set_local_capabilities(sack_only());
    connection.apply_peer_handshake_capabilities(sack_only());
    connection
}

fn with_timestamps() -> TcpCapabilities {
    TcpCapabilities {
        max_segment_size: Some(1460),
        sack: true,
        timestamps: true,
        ..TcpCapabilities::default()
    }
}

fn with_ecn(accurate_ecn: bool) -> TcpCapabilities {
    TcpCapabilities { sack: true, ecn: true, accurate_ecn, ..TcpCapabilities::default() }
}

fn stamped_connection() -> TcpConnection<BbrController> {
    let mut connection = established_connection();
    connection.set_local_capabilities(with_timestamps());
    connection.apply_peer_handshake_capabilities(with_timestamps());
    connection
}

fn ecn_connection(accurate_ecn: bool) -> TcpConnection<BbrController> {
    let mut connection = established_connection();
    connection.set_local_capabilities(with_ecn(accurate_ecn));
    connection.apply_peer_handshake_capabilities(with_ecn(accurate_ecn));
    connection
}

fn stamped_ack(connection: &TcpConnection<BbrController>, tsval: Option<u32>) -> TcpPacket {
    TcpPacket {
        timestamp: tsval.map(|tsval| TcpTimestampOption { tsval, tsecr: 0 }),
        ..packet(
            connection.rcv_nxt(),
            Some(connection.snd_nxt()),
            TcpSegmentFlags::ack(),
        )
    }
}

#[derive(Clone, Copy, Debug)]
struct TestCongestionController {
    max_datagram_size: u32,
    congestion_window: u32,
}

impl CongestionController for TestCongestionController {
    fn well_formed(&self) -> bool {
        unreachable!()
    }

    fn initial(_: u32) -> Self {
        unreachable!()
    }

    fn spec_metrics(&self) -> CongestionMetrics {
        unreachable!()
    }

    fn spec_max_datagram_size(&self) -> u32 {
        unreachable!()
    }

    fn spec_next_send_delay(&self, _: u32) -> Option<Duration> {
        unreachable!()
    }

    fn after_packet_sent(self, _: PacketNumber, _: u32, _: u32, _: Instant) -> Self {
        unreachable!()
    }

    fn after_ack(self, _: Instant, _: AckedPacket, _: RttSample, _: u32) -> Self {
        unreachable!()
    }

    fn after_end_acks(self, _: Instant, _: u32, _: bool, _: PacketNumber) -> Self {
        unreachable!()
    }

    fn after_loss(self, _: Instant, _: LostPacket, _: bool) -> Self {
        unreachable!()
    }

    fn after_mtu_update(self, _: u32) -> Self {
        unreachable!()
    }

    fn new(max_datagram_size: u32) -> Self {
        Self {
            max_datagram_size,
            congestion_window: max_datagram_size.saturating_mul(4),
        }
    }

    fn metrics(&self) -> CongestionMetrics {
        CongestionMetrics {
            congestion_window: self.congestion_window,
            pacing_rate_bytes_per_second: None,
            delivered: 0,
            max_bandwidth_bytes_per_second: 0,
            min_rtt: None,
        }
    }

    fn max_datagram_size(&self) -> u32 {
        self.max_datagram_size
    }

    fn congestion_window(&self) -> u32 {
        self.congestion_window
    }

    fn pacing_rate_bytes_per_second(&self) -> Option<u64> {
        None
    }

    fn delivered(&self) -> u64 {
        0
    }

    fn min_rtt(&self) -> Option<Duration> {
        None
    }

    fn max_bandwidth_bytes_per_second(&self) -> u64 {
        0
    }

    fn on_packet_sent(&mut self, _: PacketNumber, _: u32, _: u32, _: Instant) {}

    fn on_ack(&mut self, _: Instant, _: AckedPacket, _: RttSample, _: u32) {}

    fn on_end_acks(&mut self, _: Instant, _: u32, _: bool, _: PacketNumber) {}

    fn on_loss(&mut self, _: Instant, lost: LostPacket, _: bool) {
        let halved = self.congestion_window / 2;
        self.congestion_window = halved.max(self.max_datagram_size.max(lost.bytes));
    }

    fn on_mtu_update(&mut self, max_datagram_size: u32) {
        self.max_datagram_size = max_datagram_size;
        self.congestion_window = self.congestion_window.max(max_datagram_size);
    }

    fn next_send_delay(&self, _: u32) -> Option<Duration> {
        None
    }
}

#[test]
fn tcp_negotiated_options_preserve_accurate_ecn_when_both_peers_support_it() {
    let mut connection = established_connection();
    connection.set_local_capabilities(with_ecn(true));
    let negotiated = connection.apply_peer_handshake_capabilities(with_ecn(true));

    assert!(negotiated.ecn);
    assert!(negotiated.accurate_ecn);
}

#[test]
fn tcp_syn_retransmit_sets_classic_ecn_handshake_flags() {
    let mut connection = new_connection::<BbrController>(1);
    connection.set_local_capabilities(with_ecn(true));
    connection.connect_state(100);

    let segment = connection
        .on_tcp_ready(false, now())
        .expect("initial syn should be emitted");

    assert!(segment.flags.syn);
    assert!(segment.flags.ece);
    assert!(segment.flags.cwr);
}

fn fast_open_capabilities() -> TcpCapabilities {
    TcpCapabilities {
        max_segment_size: Some(1460),
        sack: true,
        fast_open: true,
        ..TcpCapabilities::default()
    }
}

#[test]
fn tcp_syn_data_retransmit_preserves_payload_len_and_cookie() {
    let mut connection = new_connection::<BbrController>(1);
    connection.set_local_capabilities(fast_open_capabilities());
    connection.set_fast_open_cookie(Some(&[1, 2, 3, 4]));
    connection.connect_state(100);
    connection.commit_payload_tx(5, now()).expect("commit syn payload");
    connection.timer_expire(TCP_TIMER_RETRANSMIT);

    let segment = connection
        .on_tcp_timer_expiry(TCP_TIMER_RETRANSMIT, now())
        .expect("retransmit");

    assert_eq!(segment.payload_len(), 5);
    assert!(segment.flags.syn);
    assert_eq!(
        segment.fast_open_cookie.map(|cookie| cookie.to_vec()),
        Some(vec![1, 2, 3, 4])
    );
}

#[test]
fn tcp_syn_data_ack_releases_payload_without_consuming_syn_control_byte() {
    let mut connection = new_connection::<BbrController>(1);
    connection.set_local_capabilities(fast_open_capabilities());
    connection.set_fast_open_cookie(Some(&[1, 2, 3, 4]));
    connection.connect_state(1000);
    connection.fast_open_syn_payload_len = 5;
    connection.snd_nxt = connection.iss.advance(6);
    connection.snd_una = connection.iss;
    connection.apply_ack(connection.iss.advance(6), u16::MAX);

    assert_eq!(connection.take_acked_tx_len(connection.iss.raw()), 5);
    assert_eq!(connection.fast_open_syn_payload_len, 0);
}

#[test]
fn tcp_receive_syn_echoes_peer_timestamp_in_syn_ack() {
    let mut connection = new_connection::<BbrController>(9);
    connection.set_local_capabilities(with_timestamps());
    let syn = TcpPacket {
        local: local(),
        remote: remote(),
        advertised_window: 4096,
        capabilities: with_timestamps(),
        timestamp: Some(TcpTimestampOption { tsval: 55, tsecr: 0 }),
        ..packet(10, None, TcpSegmentFlags::syn())
    };

    let segment = connection
        .receive_syn(&syn, 0, now())
        .expect("receive syn")
        .expect("syn ack");
    let timestamp = segment.timestamp.expect("timestamp");

    assert_eq!(timestamp.tsecr, 55);
    assert_ne!(timestamp.tsval, 0);
}

#[test]
fn tcp_established_ack_echoes_latest_peer_timestamp() {
    let mut connection = stamped_connection();
    let packet = stamped_ack(&connection, Some(88));

    assert!(connection.observe_inbound_timestamp(&packet, now()));
    let segment = connection.control_segment(&packet, TcpSegmentFlags::ack(), None, now());
    let timestamp = segment.timestamp.expect("timestamp");

    assert_eq!(timestamp.tsecr, 88);
    assert_ne!(timestamp.tsval, 0);
}

#[test]
fn tcp_timestamp_is_required_when_negotiated() {
    let mut connection = stamped_connection();
    let packet = stamped_ack(&connection, None);

    assert!(!connection.observe_inbound_timestamp(&packet, now()));
}

#[test]
fn tcp_paws_rejects_stale_timestamp() {
    let mut connection = stamped_connection();
    let first = stamped_ack(&connection, Some(88));
    let stale = stamped_ack(&connection, Some(77));

    assert!(connection.observe_inbound_timestamp(&first, now()));
    assert!(!connection.observe_inbound_timestamp(&stale, now()));
}

#[test]
fn tcp_paws_accepts_stale_timestamp_after_idle_window() {
    let mut connection = stamped_connection();
    let first = stamped_ack(&connection, Some(88));
    let stale = stamped_ack(&connection, Some(77));

    assert!(connection.observe_inbound_timestamp(&first, now()));
    connection.timestamps.recent_remote_at =
        Some(Instant::from_nanos(now().nanos - TCP_PAWS_IDLE - 1_000_000_000));
    assert!(connection.observe_inbound_timestamp(&stale, now()));
    assert_eq!(connection.timestamps.recent_remote, Some(77));
}

#[test]
fn tcp_timestamp_recent_only_moves_when_segment_covers_rcv_nxt() {
    let mut connection = stamped_connection();
    let in_order = stamped_ack(&connection, Some(88));
    let out_of_order = TcpPacket {
        sequence: TcpSeq::new(connection.rcv_nxt()).advance(32),
        ..stamped_ack(&connection, Some(99))
    };

    assert!(connection.observe_inbound_timestamp(&in_order, now()));
    assert!(connection.observe_inbound_timestamp(&out_of_order, now()));
    let segment = connection.control_segment(&in_order, TcpSegmentFlags::ack(), None, now());
    let timestamp = segment.timestamp.expect("timestamp");

    assert_eq!(timestamp.tsecr, 88);
}

#[test]
fn tcp_retransmitted_ack_sample_does_not_update_rto() {
    let mut connection = established_connection();
    let baseline = connection.retransmit_timeout().retransmit_timeout();

    connection.recovery.record_sent(
        1,
        TcpSeq::new(1_000),
        TcpSeq::new(2_000),
        1_000,
        0,
        now(),
    );
    connection.recovery.take_tlp_probe().expect("tlp probe");
    let packet = packet(connection.rcv_nxt(), Some(2_000), TcpSegmentFlags::ack());

    connection.observe_ack_progress(&packet, TcpSeq::new(2_000), &[], now());

    assert_eq!(connection.retransmit_timeout().retransmit_timeout(), baseline);
}

#[test]
fn tcp_timestamp_echo_ack_updates_rto_for_retransmitted_ack() {
    let mut connection = stamped_connection();
    let sequence = connection.snd_nxt();
    let end_sequence = TcpSeq::new(sequence).advance(1).raw();
    connection.snd_nxt = TcpSeq::new(end_sequence);
    let sent = connection
        .next_local_timestamp(now())
        .expect("local timestamp for outbound packet");
    connection.recovery.record_sent(
        1,
        TcpSeq::new(sequence),
        TcpSeq::new(end_sequence),
        1,
        0,
        now(),
    );
    connection.recovery.take_tlp_probe().expect("tlp probe");
    let packet = TcpPacket {
        timestamp: Some(TcpTimestampOption { tsval: 123, tsecr: sent.tsval }),
        ..packet(connection.rcv_nxt(), Some(end_sequence), TcpSegmentFlags::ack())
    };

    let baseline = connection.retransmit_timeout().retransmit_timeout();
    connection.observe_ack_progress(
        &packet,
        TcpSeq::new(end_sequence),
        &[],
        millis_later(now(), 60),
    );
    assert!(connection.retransmit_timeout().smoothed_rtt().is_some());
    assert!(connection.retransmit_timeout().rtt_variance().is_some());
    assert!(
        connection.retransmit_timeout().retransmit_timeout().as_nanos() > baseline.as_nanos()
    );
}

fn recovery_ack(acknowledgment: u32, now: Instant) -> TcpRecoveryAck {
    TcpRecoveryAck {
        acknowledgment: TcpSeq::new(acknowledgment),
        now,
        app_limited: false,
        ecn_ce_count: 0,
        reordering_window: Duration::from_millis(25),
    }
}

#[test]
fn tcp_tx_payload_budget_is_limited_by_prr_during_recovery() {
    let mut connection = established_for_test::<TestCongestionController>();
    let start = now();
    let capabilities = TcpCapabilities {
        max_segment_size: Some(1_000),
        sack: true,
        ..TcpCapabilities::default()
    };
    connection.set_local_capabilities(capabilities);
    connection.apply_peer_handshake_capabilities(capabilities);
    connection.snd_wnd = 8_000;
    connection.snd_una = TcpSeq::new(1_000);
    connection.snd_nxt = TcpSeq::new(6_000);
    for number in 1..6u32 {
        connection.recovery.record_sent(
            u64::from(number),
            TcpSeq::new(number * 1_000),
            TcpSeq::new((number + 1) * 1_000),
            1_000,
            0,
            millis_later(start, u64::from(number) - 1),
        );
    }
    connection.recovery.on_sack_blocks(
        recovery_ack(1_000, millis_later(start, 30)),
        &[TcpSackBlock { left_edge: TcpSeq::new(2_000), right_edge: TcpSeq::new(3_000) }],
        &mut connection.congestion,
    );
    connection.recovery.on_rack_timeout(
        millis_later(start, 56),
        connection.snd_nxt,
        &mut connection.congestion,
    );
    connection.recovery.on_retransmit_sent(1_000);

    assert_eq!(connection.tx_payload_budget(1_000), 0);

    connection.recovery.on_ack(
        recovery_ack(3_000, millis_later(start, 90)),
        &mut connection.congestion,
    );

    assert_eq!(connection.tx_payload_budget(1_000), 0);

    connection.recovery.on_ack(
        recovery_ack(4_000, millis_later(start, 120)),
        &mut connection.congestion,
    );

    assert_eq!(
        connection.tx_payload_budget(2_000),
        connection
            .recovery
            .recovery_send_space(
                connection.recovery.bytes_in_flight(),
                connection.congestion.max_datagram_size(),
            )
            .expect("recovery send space") as usize
    );
}

fn ecn_packet(
    connection: &TcpConnection<BbrController>,
    sequence: u32,
    flags: TcpSegmentFlags,
    ip_ecn: Option<IpEcnCodepoint>,
) -> TcpPacket {
    TcpPacket { ip_ecn, ..packet(sequence, Some(connection.snd_nxt()), flags) }
}

#[test]
fn tcp_cwr_clears_pending_ece_echo() {
    let mut connection = ecn_connection(false);
    let marked = ecn_packet(&connection, 1, TcpSegmentFlags::ack(), Some(IpEcnCodepoint::Ce));
    connection.observe_peer_ecn_feedback(&marked);
    assert!(connection.pending_ece_ack());

    let confirmed = ecn_packet(&connection, 2, flags_of(true, false, true), None);
    connection.observe_peer_ecn_feedback(&confirmed);

    assert!(!connection.pending_ece_ack());
}

#[test]
fn tcp_ack_ece_sets_congestion_feedback_without_enabling_ack_echo() {
    let mut connection = ecn_connection(false);

    let echo = ecn_packet(&connection, 1, flags_of(true, true, false), None);
    connection.observe_peer_ecn_feedback(&echo);

    assert!(!connection.pending_ece_ack());
    assert!(connection.pending_ecn_ce());
}

#[test]
fn tcp_ip_ce_sets_ack_echo_without_marking_congestion_feedback() {
    let mut connection = ecn_connection(false);

    let marked = ecn_packet(&connection, 1, TcpSegmentFlags::ack(), Some(IpEcnCodepoint::Ce));
    connection.observe_peer_ecn_feedback(&marked);

    assert!(connection.pending_ece_ack());
    assert!(!connection.pending_ecn_ce());
}

#[test]
fn tcp_accecn_ack_uses_ace_bits_for_ce_feedback() {
    let mut connection = ecn_connection(true);

    let marked = ecn_packet(&connection, 1, TcpSegmentFlags::ack(), Some(IpEcnCodepoint::Ce));
    connection.observe_peer_ecn_feedback(&marked);

    let flags = connection.output_flags(TcpSegmentFlags::ack());
    assert_eq!(ace_counter(flags), 1);
    assert!(!connection.pending_ece_ack());
}

#[test]
fn tcp_accecn_ack_updates_pending_feedback_from_peer_ace_delta() {
    let mut connection = ecn_connection(true);

    let counted = TcpSegmentFlags { ack: true, ..ace_flags(3) };
    let report = ecn_packet(&connection, 1, counted, None);
    connection.observe_peer_ecn_feedback(&report);

    assert_eq!(connection.ecn.pending_ce_feedback, 3);
    assert!(connection.pending_ecn_ce());
}

#[test]
fn tcp_ace_helpers_round_trip_and_wrap_modulo_eight() {
    for value in 0_u64..8 {
        assert_eq!(u64::from(ace_counter(ace_flags(value))), value);
    }
    assert_eq!(ace_delta(6, 1), 3);
}

fn established_for_time_wait_test() -> TcpConnection<BbrController> {
    let mut connection = new_connection(1);
    connection.state = TcpState::Established;
    connection.iss = TcpSeq::new(1_000);
    connection.irs = TcpSeq::new(7_000);
    connection.snd_una = TcpSeq::new(1_500);
    connection.snd_nxt = TcpSeq::new(1_500);
    connection.rcv_nxt = TcpSeq::new(7_000);
    connection
}

fn fin_ack() -> TcpSegmentFlags {
    TcpSegmentFlags { fin: true, ack: true, ..TcpSegmentFlags::empty() }
}

#[test]
fn tcp_passive_close_out_of_order_fin_does_not_transition() {
    let mut connection = established_for_time_wait_test();
    let rcv_nxt = connection.rcv_nxt();
    let packet = packet(rcv_nxt.wrapping_add(1), Some(connection.snd_nxt()), fin_ack());

    let (segment, _) = connection
        .receive_established(&packet, now())
        .expect("receive out-of-order fin");

    assert!(segment.is_none());
    assert_eq!(connection.state(), TcpState::Established);
    assert_eq!(connection.rcv_nxt(), rcv_nxt);
}

#[test]
fn active_close_goes_through_fin_wait_to_time_wait() {
    let mut connection = established_for_time_wait_test();
    connection.on_session_close();
    let fin = connection.on_tcp_ready(false, now()).expect("fin");
    assert!(fin.flags.fin);
    assert_eq!(fin.sequence, 1_500);
    assert_eq!(connection.state(), TcpState::FinWait1);
    assert_eq!(connection.snd_nxt(), 1_501);

    let ack = packet(7_000, Some(1_501), TcpSegmentFlags::ack());
    assert!(connection.receive_close_side(&ack, now()).is_none());
    assert_eq!(connection.state(), TcpState::FinWait2);

    let peer_fin = packet(7_000, Some(1_501), fin_ack());
    let answer = connection.receive_close_side(&peer_fin, now()).expect("ack");
    assert_eq!(answer.acknowledgment, 7_001);
    assert_eq!(connection.state(), TcpState::TimeWait);
    assert!(connection.timer_is_active(TCP_TIMER_TIME_WAIT));
    assert_eq!(
        connection.timer_ticks(TCP_TIMER_TIME_WAIT, now()),
        Some(TCP_TIME_WAIT_TICKS)
    );

    connection.timer_expire(TCP_TIMER_TIME_WAIT);
    assert!(connection.on_tcp_timer_expiry(TCP_TIMER_TIME_WAIT, now()).is_none());
    assert_eq!(connection.state(), TcpState::Closed);
    assert_eq!(connection.close_reason(), Some(TcpCloseReason::LocalRequest));
}

#[test]
fn passive_close_goes_through_close_wait_to_closed() {
    let mut connection = established_for_time_wait_test();
    let peer_fin = packet(7_000, Some(1_500), fin_ack());
    let (answer, _) = connection.receive_established(&peer_fin, now()).expect("fin");
    assert_eq!(answer.expect("ack").acknowledgment, 7_001);
    assert_eq!(connection.state(), TcpState::CloseWait);

    connection.on_session_close();
    let fin = connection.on_tcp_ready(false, now()).expect("fin");
    assert!(fin.flags.fin);
    assert_eq!(connection.state(), TcpState::LastAck);

    let ack = packet(7_001, Some(1_501), TcpSegmentFlags::ack());
    assert!(connection.receive_close_side(&ack, now()).is_none());
    assert_eq!(connection.state(), TcpState::Closed);
}

#[test]
fn reset_closes_a_connection() {
    let mut connection = established_for_time_wait_test();
    connection.state = TcpState::CloseWait;
    let reset = packet(7_000, None, TcpSegmentFlags::rst());
    assert!(connection.receive_close_side(&reset, now()).is_none());
    assert_eq!(connection.state(), TcpState::Closed);
    assert_eq!(connection.close_reason(), Some(TcpCloseReason::RemoteReset));
}

#[test]
fn active_open_answers_the_syn_ack() {
    let mut connection = new_connection::<BbrController>(3);
    connection.connect_state(900);
    let reply = packet(
        40,
        Some(901),
        TcpSegmentFlags { syn: true, ack: true, ..TcpSegmentFlags::empty() },
    );
    let answer = connection
        .receive_open_reply(&reply, now())
        .expect("open reply")
        .expect("answer");
    assert!(answer.flags.ack);
    assert!(!answer.flags.rst);
    assert_eq!(answer.acknowledgment, 41);
    assert_eq!(connection.state(), TcpState::Established);
    assert_eq!(connection.snd_una(), 901);
    assert_eq!(connection.rcv_nxt(), 41);
}

#[test]
fn open_reply_to_something_never_sent_is_reset() {
    let mut connection = new_connection::<BbrController>(3);
    connection.connect_state(900);
    let reply = packet(40, Some(950), TcpSegmentFlags::ack());
    let answer = connection
        .receive_open_reply(&reply, now())
        .expect("open reply")
        .expect("answer");
    assert!(answer.flags.rst);
    assert_eq!(answer.sequence, 950);
    assert_eq!(connection.state(), TcpState::SynSent);
}

#[test]
fn events_outside_their_state_are_refused() {
    let mut closed = new_connection::<BbrController>(4);
    let ack = packet(1, Some(1), TcpSegmentFlags::ack());
    assert_eq!(
        closed.receive_open_reply(&ack, now()),
        Err(TcpConnectionError::OpenReplyOutsideSynSent)
    );
    assert_eq!(
        closed.receive_final_ack(&ack, now()),
        Err(TcpConnectionError::FinalAckOutsideSynRcvd)
    );
    assert_eq!(
        closed.receive_established(&ack, now()),
        Err(TcpConnectionError::ReceiveOutsideEstablished)
    );
    assert_eq!(
        closed.tx_segment(1, now()),
        Err(TcpConnectionError::TransmitOutsideEstablished)
    );
    assert_eq!(
        closed.commit_payload_tx(1, now()),
        Err(TcpConnectionError::CommitOutsideEstablished)
    );
    let mut nowhere = TcpConnection::<BbrController>::new(
        None,
        DataWorkerId::new(0),
        443,
        None,
        remote(),
    );
    nowhere.connect_state(1);
    assert_eq!(
        nowhere.tx_segment(1, now()),
        Err(TcpConnectionError::SynSentWithoutLocalAddress)
    );
    nowhere.state = TcpState::Established;
    assert_eq!(
        nowhere.tx_segment(1, now()),
        Err(TcpConnectionError::EstablishedWithoutLocalAddress)
    );
    let mut long = established_connection();
    assert_eq!(
        long.commit_payload_tx(u32::MAX as usize + 1, now()),
        Err(TcpConnectionError::PayloadTooLong)
    );
    assert!(!TcpConnectionError::PayloadTooLong.message().is_empty());
}

#[test]
fn payload_is_cut_to_what_is_new() {
    let connection = established_connection();
    let next = connection.rcv_nxt();
    let payload = |sequence: u32, payload_len: u32| TcpPacket {
        payload_len,
        ..packet(sequence, Some(connection.snd_nxt()), TcpSegmentFlags::ack())
    };
    assert_eq!(connection.accept_payload(&payload(next, 10)), Some((0, 0)));
    assert_eq!(connection.accept_payload(&payload(next.wrapping_sub(4), 10)), Some((4, 0)));
    assert_eq!(connection.accept_payload(&payload(next.wrapping_add(6), 10)), Some((0, 6)));
    assert_eq!(connection.accept_payload(&payload(next.wrapping_sub(10), 10)), None);
    assert_eq!(connection.accept_payload(&payload(next, 0)), None);
}

#[test]
fn every_second_clean_payload_asks_for_an_acknowledgment() {
    let mut connection = established_connection();
    assert!(!connection.on_clean_in_order_payload());
    assert!(connection.timer_is_active(TCP_TIMER_DELAYED_ACK));
    assert!(connection.on_clean_in_order_payload());
    assert!(!connection.timer_is_active(TCP_TIMER_DELAYED_ACK));
}

#[test]
fn transmissions_follow_each_other() {
    let mut connection = established_connection();
    let start = connection.snd_nxt();
    let first = connection.tx_segment(100, now()).expect("first");
    connection.commit_payload_tx(100, now()).expect("commit first");
    let second = connection.tx_segment(50, now()).expect("second");
    connection.commit_payload_tx(50, now()).expect("commit second");
    assert_eq!(first.sequence, start);
    assert_eq!(second.sequence, start + 100);
    assert_eq!(connection.snd_nxt(), start + 150);
    assert_eq!(connection.recovery().bytes_in_flight(), 150);
    assert!(first.flags.ack && first.flags.psh);
}

#[test]
fn retransmission_timeout_doubles_up_to_a_minute() {
    let mut connection = established_connection();
    let first = connection.retransmit_timeout().retransmit_timeout();
    assert_eq!(connection.observe_retransmit_timeout().as_nanos(), 2 * first.as_nanos());
    for _ in 0..40 {
        connection.observe_retransmit_timeout();
    }
    assert_eq!(
        connection.retransmit_timeout().retransmit_timeout(),
        Duration::from_secs(60)
    );
}

#[test]
fn window_scales_apply_to_both_directions() {
    let mut connection = established_connection();
    let ours = TcpCapabilities { window_scale: Some(3), ..TcpCapabilities::default() };
    let theirs = TcpCapabilities { window_scale: Some(5), ..TcpCapabilities::default() };
    connection.set_local_capabilities(ours);
    connection.apply_peer_handshake_capabilities(theirs);
    assert_eq!(connection.effective_send_window(100), 3_200);
    assert_eq!(connection.advertised_receive_window(80_000), 10_000);
}
