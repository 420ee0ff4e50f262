use hammer_transport::congestion::{
    AckedPacket, CongestionController, CongestionMetrics, LostPacket, PacketNumber, RttSample,
};
use hammer_transport::tcp::key_collector::{ScoreboardKeyCollector, SCOREBOARD_KEY_INLINE_CAP};
use hammer_transport::tcp::recovery::TcpRecoveryState;
use hammer_transport::tcp::recovery_model::{TcpRecoveryAck, TcpSackBlock};
use hammer_transport::tcp::sequence::TcpSeq;
use hammer_transport::time::{Duration, Instant};

fn start() -> Instant {
    Instant::from_nanos(1_000_000_000_000)
}

fn later(now: Instant, millis: u64) -> Instant {
    now.checked_add(Duration::from_millis(millis)).expect("later")
}

/// A controller that writes down what it is told.
#[derive(Clone, Debug, Default)]
struct RecordingController {
    mtu: u32,
    congestion_window: u32,
    acked: Vec<AckedPacket>,
    acked_bytes_in_flight: Vec<u32>,
    lost: Vec<LostPacket>,
    end_acks: u32,
}

impl CongestionController for RecordingController {
    fn well_formed(&self) -> bool {
        unreachable!()
    }

    fn initial(_: u32) -> Self {
        unreachable!()
    }

    fn spec_metrics(&self) -> CongestionMetrics {
        unreachable!()
    }

    fn spec_max_datagram_size(&self) -> u32 {
        unreachable!()
    }

    fn spec_next_send_delay(&self, _: u32) -> Option<Duration> {
        unreachable!()
    }

    fn after_packet_sent(self, _: PacketNumber, _: u32, _: u32, _: Instant) -> Self {
        unreachable!()
    }

    fn after_ack(self, _: Instant, _: AckedPacket, _: RttSample, _: u32) -> Self {
        unreachable!()
    }

    fn after_end_acks(self, _: Instant, _: u32, _: bool, _: PacketNumber) -> Self {
        unreachable!()
    }

    fn after_loss(self, _: Instant, _: LostPacket, _: bool) -> Self {
        unreachable!()
    }

    fn after_mtu_update(self, _: u32) -> Self {
        unreachable!()
    }

    fn new(max_datagram_size: u32) -> Self {
        Self {
            mtu: max_datagram_size,
            congestion_window: max_datagram_size.saturating_mul(4),
            ..Self::default()
        }
    }

    fn metrics(&self) -> CongestionMetrics {
        CongestionMetrics {
            congestion_window: 0,
            pacing_rate_bytes_per_second: None,
            delivered: self.acked.len() as u64,
            max_bandwidth_bytes_per_second: 0,
            min_rtt: None,
        }
    }

    fn max_datagram_size(&self) -> u32 {
        self.mtu
    }

    fn congestion_window(&self) -> u32 {
        self.congestion_window
    }

    fn pacing_rate_bytes_per_second(&self) -> Option<u64> {
        None
    }

    fn delivered(&self) -> u64 {
        self.acked.len() as u64
    }

    fn min_rtt(&self) -> Option<Duration> {
        None
    }

    fn max_bandwidth_bytes_per_second(&self) -> u64 {
        0
    }

    fn on_packet_sent(&mut self, _: PacketNumber, _: u32, _: u32, _: Instant) {}

    fn on_ack(&mut self, _: Instant, acked: AckedPacket, _: RttSample, bytes_in_flight: u32) {
        self.acked_bytes_in_flight.push(bytes_in_flight);
        self.acked.push(acked);
    }

    fn on_end_acks(&mut self, _: Instant, _: u32, _: bool, _: PacketNumber) {
        self.end_acks += 1;
    }

    fn on_loss(&mut self, _: Instant, lost: LostPacket, _: bool) {
        self.lost.push(lost);
        self.congestion_window = self
            .congestion_window
            .saturating_sub(lost.bytes.max(self.mtu))
            .max(self.mtu);
    }

    fn on_mtu_update(&mut self, max_datagram_size: u32) {
        self.mtu = max_datagram_size;
        self.congestion_window = self.congestion_window.max(max_datagram_size);
    }

    fn next_send_delay(&self, pending_bytes: u32) -> Option<Duration> {
        (pending_bytes != 0).then_some(Duration::zero())
    }
}

/// A controller whose window never moves.
#[derive(Clone, Debug, Default)]
struct FixedController {
    mtu: u32,
    congestion_window: u32,
}

impl CongestionController for FixedController {
    fn well_formed(&self) -> bool {
        unreachable!()
    }

    fn initial(_: u32) -> Self {
        unreachable!()
    }

    fn spec_metrics(&self) -> CongestionMetrics {
        unreachable!()
    }

    fn spec_max_datagram_size(&self) -> u32 {
        unreachable!()
    }

    fn spec_next_send_delay(&self, _: u32) -> Option<Duration> {
        unreachable!()
    }

    fn after_packet_sent(self, _: PacketNumber, _: u32, _: u32, _: Instant) -> Self {
        unreachable!()
    }

    fn after_ack(self, _: Instant, _: AckedPacket, _: RttSample, _: u32) -> Self {
        unreachable!()
    }

    fn after_end_acks(self, _: Instant, _: u32, _: bool, _: PacketNumber) -> Self {
        unreachable!()
    }

    fn after_loss(self, _: Instant, _: LostPacket, _: bool) -> Self {
        unreachable!()
    }

    fn after_mtu_update(self, _: u32) -> Self {
        unreachable!()
    }

    fn new(max_datagram_size: u32) -> Self {
        Self {
            mtu: max_datagram_size,
            congestion_window: max_datagram_size.saturating_mul(8),
        }
    }

    fn metrics(&self) -> CongestionMetrics {
        CongestionMetrics {
            congestion_window: 0,
            pacing_rate_bytes_per_second: None,
            delivered: 0,
            max_bandwidth_bytes_per_second: 0,
            min_rtt: None,
        }
    }

    fn max_datagram_size(&self) -> u32 {
        self.mtu
    }

    fn congestion_window(&self) -> u32 {
        self.congestion_window
    }

    fn pacing_rate_bytes_per_second(&self) -> Option<u64> {
        None
    }

    fn delivered(&self) -> u64 {
        0
    }

    fn min_rtt(&self) -> Option<Duration> {
        None
    }

    fn max_bandwidth_bytes_per_second(&self) -> u64 {
        0
    }

    fn on_packet_sent(&mut self, _: PacketNumber, _: u32, _: u32, _: Instant) {}

    fn on_ack(&mut self, _: Instant, _: AckedPacket, _: RttSample, _: u32) {}

    fn on_end_acks(&mut self, _: Instant, _: u32, _: bool, _: PacketNumber) {}

    fn on_loss(&mut self, _: Instant, _: LostPacket, _: bool) {}

    fn on_mtu_update(&mut self, max_datagram_size: u32) {
        self.mtu = max_datagram_size;
    }

    fn next_send_delay(&self, pending_bytes: u32) -> Option<Duration> {
        (pending_bytes != 0).then_some(Duration::zero())
    }
}

fn ack(acknowledgment: u32, now: Instant, rtt_ms: u64) -> TcpRecoveryAck {
    let reordering_window =
        Duration::from_millis(rtt_ms.max(1) / 4).longer(Duration::from_millis(1));
    TcpRecoveryAck {
        acknowledgment: TcpSeq::new(acknowledgment),
        now,
        app_limited: false,
        ecn_ce_count: 0,
        reordering_window,
    }
}

fn record_sent_for_test(
    recovery: &mut TcpRecoveryState,
    packet_number: PacketNumber,
    sequence: u32,
    end_sequence: u32,
    bytes: u32,
    sent_at: Instant,
) {
    recovery.record_sent(
        packet_number,
        TcpSeq::new(sequence),
        TcpSeq::new(end_sequence),
        bytes,
        0,
        sent_at,
    );
}

#[test]
fn on_ack_acknowledges_cumulative_range() {
    let now = start();
    let mut recovery = TcpRecoveryState::new();
    let mut controller = RecordingController::new(1_460);
    record_sent_for_test(&mut recovery, 1, 1_000, 2_000, 1_000, now);
    record_sent_for_test(
        &mut recovery,
        2,
        2_000,
        3_000,
        1_000,
        later(now, 1),
    );

    recovery.on_ack(
        ack(2_000, later(now, 40), 40),
        &mut controller,
    );

    assert_eq!(controller.acked.len(), 1);
    assert_eq!(controller.acked[0].packet_number, 1);
    assert_eq!(controller.acked_bytes_in_flight.as_slice(), &[1_000]);
    assert_eq!(recovery.bytes_in_flight(), 1_000);
}

#[test]
fn on_ack_reports_per_acked_segment_bytes_in_flight() {
    let now = start();
    let mut recovery = TcpRecoveryState::new();
    let mut controller = RecordingController::new(1_460);
    record_sent_for_test(&mut recovery, 1, 1_000, 2_000, 1_000, now);
    record_sent_for_test(
        &mut recovery,
        2,
        2_000,
        3_000,
        1_000,
        later(now, 1),
    );

    recovery.on_ack(
        ack(3_000, later(now, 30), 40),
        &mut controller,
    );

    assert_eq!(controller.acked.len(), 2);
    assert_eq!(controller.acked[0].packet_number, 1);
    assert_eq!(controller.acked[1].packet_number, 2);
    assert_eq!(controller.acked_bytes_in_flight.as_slice(), &[1_000, 0]);
}

#[test]
fn on_sack_blocks_marks_older_segment_lost_after_later_sack() {
    let now = start();
    let mut recovery = TcpRecoveryState::new();
    let mut controller = RecordingController::new(1_460);
    record_sent_for_test(&mut recovery, 1, 1_000, 2_000, 1_000, now);
    record_sent_for_test(
        &mut recovery,
        2,
        2_000,
        3_000,
        1_000,
        later(now, 1),
    );

    recovery.on_sack_blocks(
        ack(1_000, later(now, 30), 40),
        &[TcpSackBlock {
            left_edge: TcpSeq::new(2_000),
            right_edge: TcpSeq::new(3_000),
        }],
        &mut controller,
    );
    recovery.on_rack_timeout(
        later(now, 56),
        TcpSeq::new(3_000),
        &mut controller,
    );

    assert_eq!(controller.lost.len(), 1);
    assert_eq!(controller.lost[0].packet_number, 1);
}

#[test]
fn rack_waits_for_reordering_window_before_marking_loss() {
    let now = start();
    let mut recovery = TcpRecoveryState::new();
    let mut controller = RecordingController::new(1_460);
    record_sent_for_test(&mut recovery, 1, 1_000, 2_000, 1_000, now);
    record_sent_for_test(
        &mut recovery,
        2,
        2_000,
        3_000,
        1_000,
        later(now, 1),
    );

    recovery.on_sack_blocks(
        ack(1_000, later(now, 30), 80),
        &[TcpSackBlock {
            left_edge: TcpSeq::new(2_000),
            right_edge: TcpSeq::new(3_000),
        }],
        &mut controller,
    );
    recovery.on_rack_timeout(
        later(now, 45),
        TcpSeq::new(3_000),
        &mut controller,
    );
    assert!(controller.lost.is_empty());

    recovery.on_rack_timeout(
        later(now, 55),
        TcpSeq::new(3_000),
        &mut controller,
    );
    assert_eq!(controller.lost.len(), 1);
    assert_eq!(controller.lost[0].packet_number, 1);
}

#[test]
fn on_sack_blocks_acks_successor_sample_when_left_edge_has_no_exact_match() {
    let now = start();
    let mut recovery = TcpRecoveryState::new();
    let mut controller = RecordingController::new(1_460);
    record_sent_for_test(&mut recovery, 1, 1_000, 2_000, 1_000, now);
    record_sent_for_test(
        &mut recovery,
        2,
        3_000,
        4_000,
        1_000,
        later(now, 1),
    );

    recovery.on_sack_blocks(
        ack(1_000, later(now, 30), 40),
        &[TcpSackBlock {
            left_edge: TcpSeq::new(2_500),
            right_edge: TcpSeq::new(4_000),
        }],
        &mut controller,
    );

    assert_eq!(controller.acked.len(), 1);
    assert_eq!(controller.acked[0].packet_number, 2);
    assert_eq!(recovery.bytes_in_flight(), 1_000);
}

#[test]
fn on_ack_splits_sample_when_ack_covers_partial_range() {
    let now = start();
    let mut recovery = TcpRecoveryState::new();
    let mut controller = RecordingController::new(1_460);
    record_sent_for_test(&mut recovery, 1, 1_000, 2_000, 1_000, now);

    recovery.on_ack(
        ack(1_500, later(now, 25), 25),
        &mut controller,
    );

    assert_eq!(controller.acked.len(), 1);
    assert_eq!(controller.acked[0].packet_number, 1);
    assert_eq!(controller.acked[0].bytes, 500);
    let remaining = recovery.oldest_unacked_sample().expect("remaining sample");
    assert_eq!(remaining.sequence, TcpSeq::new(1_500));
    assert_eq!(remaining.end_sequence, TcpSeq::new(2_000));
    assert_eq!(remaining.bytes, 500);
    assert_eq!(recovery.bytes_in_flight(), 500);
}

#[test]
fn on_sack_blocks_split_sample_for_partial_sack_range() {
    let now = start();
    let mut recovery = TcpRecoveryState::new();
    let mut controller = RecordingController::new(1_460);
    record_sent_for_test(&mut recovery, 1, 1_000, 2_000, 1_000, now);
    record_sent_for_test(
        &mut recovery,
        2,
        2_000,
        3_000,
        1_000,
        later(now, 1),
    );

    recovery.on_sack_blocks(
        ack(1_000, later(now, 30), 30),
        &[TcpSackBlock {
            left_edge: TcpSeq::new(2_400),
            right_edge: TcpSeq::new(2_800),
        }],
        &mut controller,
    );

    assert_eq!(controller.acked.len(), 1);
    assert_eq!(controller.acked[0].packet_number, 2);
    assert_eq!(controller.acked[0].bytes, 400);

    let head = recovery.oldest_unacked_sample().expect("head");
    assert_eq!(head.sequence, TcpSeq::new(1_000));
    assert_eq!(head.end_sequence, TcpSeq::new(2_000));

    let middle = recovery
        .sample_at_or_after(TcpSeq::new(2_000), false)
        .map(|index| recovery.sent_sample(index))
        .expect("middle sample");
    assert_eq!(middle.sequence, TcpSeq::new(2_000));
    assert_eq!(middle.end_sequence, TcpSeq::new(2_400));

    let tail = recovery
        .sample_at_or_after(TcpSeq::new(2_800), false)
        .map(|index| recovery.sent_sample(index))
        .expect("tail sample");
    assert_eq!(tail.sequence, TcpSeq::new(2_800));
    assert_eq!(tail.end_sequence, TcpSeq::new(3_000));
    assert_eq!(recovery.bytes_in_flight(), 1_600);
}

#[test]
fn repeated_sack_blocks_do_not_requeue_same_rack_loss_candidate() {
    let now = start();
    let mut recovery = TcpRecoveryState::new();
    let mut controller = RecordingController::new(1_000);
    record_sent_for_test(&mut recovery, 1, 1_000, 2_000, 1_000, now);
    record_sent_for_test(
        &mut recovery,
        2,
        2_000,
        3_000,
        1_000,
        later(now, 1),
    );
    record_sent_for_test(
        &mut recovery,
        3,
        3_000,
        4_000,
        1_000,
        later(now, 2),
    );

    let block = TcpSackBlock {
        left_edge: TcpSeq::new(3_000),
        right_edge: TcpSeq::new(4_000),
    };
    recovery.on_sack_blocks(
        ack(1_000, later(now, 30), 30),
        &[block],
        &mut controller,
    );
    recovery.on_sack_blocks(
        ack(1_000, later(now, 35), 35),
        &[block],
        &mut controller,
    );
    recovery.on_rack_timeout(
        later(now, 60),
        TcpSeq::new(4_000),
        &mut controller,
    );

    assert_eq!(controller.lost.len(), 2);
    assert_eq!(controller.lost[0].packet_number, 1);
    assert_eq!(controller.lost[1].packet_number, 2);
}

#[test]
fn overlapping_sack_blocks_do_not_double_ack_same_sample_bytes() {
    let now = start();
    let mut recovery = TcpRecoveryState::new();
    let mut controller = RecordingController::new(1_000);
    record_sent_for_test(&mut recovery, 1, 1_000, 2_000, 1_000, now);
    record_sent_for_test(
        &mut recovery,
        2,
        2_000,
        3_000,
        1_000,
        later(now, 1),
    );

    recovery.on_sack_blocks(
        ack(1_000, later(now, 30), 30),
        &[
            TcpSackBlock {
                left_edge: TcpSeq::new(2_200),
                right_edge: TcpSeq::new(2_800),
            },
            TcpSackBlock {
                left_edge: TcpSeq::new(2_400),
                right_edge: TcpSeq::new(3_000),
            },
        ],
        &mut controller,
    );

    assert_eq!(controller.acked.len(), 2);
    assert_eq!(controller.acked[0].bytes, 600);
    assert_eq!(controller.acked[1].bytes, 200);
    assert_eq!(recovery.bytes_in_flight(), 1_200);
}

#[test]
fn sack_ack_of_middle_range_only_marks_lower_unsacked_samples_lost() {
    let now = start();
    let mut recovery = TcpRecoveryState::new();
    let mut controller = RecordingController::new(1_000);
    record_sent_for_test(&mut recovery, 1, 1_000, 2_000, 1_000, now);
    record_sent_for_test(
        &mut recovery,
        2,
        2_000,
        3_000,
        1_000,
        later(now, 1),
    );
    record_sent_for_test(
        &mut recovery,
        3,
        3_000,
        4_000,
        1_000,
        later(now, 2),
    );

    recovery.on_sack_blocks(
        ack(1_000, later(now, 30), 30),
        &[TcpSackBlock {
            left_edge: TcpSeq::new(2_000),
            right_edge: TcpSeq::new(3_000),
        }],
        &mut controller,
    );
    recovery.on_rack_timeout(
        later(now, 60),
        TcpSeq::new(4_000),
        &mut controller,
    );

    assert_eq!(controller.lost.len(), 1);
    assert_eq!(controller.lost[0].packet_number, 1);
    let remaining = recovery.oldest_unacked_sample().expect("remaining head");
    assert_eq!(remaining.packet_number, 1);
    let next = recovery
        .sample_at_or_after(TcpSeq::new(3_000), false)
        .map(|index| recovery.sent_sample(index))
        .expect("higher unsacked sample remains outstanding");
    assert_eq!(next.packet_number, 3);
}

#[test]
fn partial_ack_in_recovery_requeues_only_new_unsacked_head_once() {
    let now = start();
    let mut recovery = TcpRecoveryState::new();
    let mut controller = RecordingController::new(1_000);
    record_sent_for_test(&mut recovery, 1, 1_000, 2_000, 1_000, now);
    record_sent_for_test(
        &mut recovery,
        2,
        2_000,
        3_000,
        1_000,
        later(now, 1),
    );
    record_sent_for_test(
        &mut recovery,
        3,
        3_000,
        4_000,
        1_000,
        later(now, 2),
    );

    recovery.on_sack_blocks(
        ack(1_000, later(now, 30), 30),
        &[TcpSackBlock {
            left_edge: TcpSeq::new(3_000),
            right_edge: TcpSeq::new(4_000),
        }],
        &mut controller,
    );
    recovery.on_rack_timeout(
        later(now, 60),
        TcpSeq::new(4_000),
        &mut controller,
    );

    let first = recovery.take_rack_retransmit().expect("first retransmit");
    assert_eq!(first.packet_number, 1);

    recovery.on_ack(
        ack(2_500, later(now, 90), 90),
        &mut controller,
    );
    let second = recovery
        .take_rack_retransmit()
        .expect("new unsacked head after partial ack");
    assert_eq!(second.sequence, TcpSeq::new(2_500));
    assert!(recovery.take_rack_retransmit().is_none());
}

#[test]
fn next_tlp_probe_selects_newest_outstanding_segment() {
    let now = start();
    let mut recovery = TcpRecoveryState::new();
    record_sent_for_test(&mut recovery, 1, 1_000, 2_000, 1_000, now);
    record_sent_for_test(
        &mut recovery,
        2,
        2_000,
        3_000,
        1_000,
        later(now, 1),
    );

    let probe = recovery.take_tlp_probe().expect("tlp probe");

    assert_eq!(probe.packet_number, 2);
}

#[test]
fn next_tlp_probe_falls_back_to_previous_tail_after_sack_removes_newest_segment() {
    let now = start();
    let mut recovery = TcpRecoveryState::new();
    let mut controller = RecordingController::new(1_460);
    record_sent_for_test(&mut recovery, 1, 1_000, 2_000, 1_000, now);
    record_sent_for_test(
        &mut recovery,
        2,
        2_000,
        3_000,
        1_000,
        later(now, 1),
    );

    recovery.on_sack_blocks(
        ack(1_000, later(now, 30), 40),
        &[TcpSackBlock {
            left_edge: TcpSeq::new(2_000),
            right_edge: TcpSeq::new(3_000),
        }],
        &mut controller,
    );

    let probe = recovery
        .take_tlp_probe()
        .expect("tlp probe should use remaining tail");

    assert_eq!(probe.packet_number, 1);
    assert_eq!(probe.sequence, TcpSeq::new(1_000));
}

#[test]
fn recovery_send_space_allows_one_mss_when_recovery_starts() {
    let now = start();
    let mut recovery = TcpRecoveryState::new();
    let mut controller = RecordingController::new(1_000);
    record_sent_for_test(&mut recovery, 1, 1_000, 2_000, 1_000, now);
    record_sent_for_test(
        &mut recovery,
        2,
        2_000,
        3_000,
        1_000,
        later(now, 1),
    );
    recovery.on_sack_blocks(
        ack(1_000, later(now, 30), 40),
        &[TcpSackBlock {
            left_edge: TcpSeq::new(2_000),
            right_edge: TcpSeq::new(3_000),
        }],
        &mut controller,
    );

    recovery.on_rack_timeout(
        later(now, 56),
        TcpSeq::new(3_000),
        &mut controller,
    );

    assert_eq!(
        recovery.recovery_send_space(recovery.bytes_in_flight(), 1_000),
        Some(1_000)
    );
}

#[test]
fn recovery_send_space_tracks_prr_delivery_and_send_accounting() {
    let now = start();
    let mut recovery = TcpRecoveryState::new();
    let mut controller = RecordingController::new(1_000);
    record_sent_for_test(&mut recovery, 1, 1_000, 2_000, 1_000, now);
    record_sent_for_test(
        &mut recovery,
        2,
        2_000,
        3_000,
        1_000,
        later(now, 1),
    );
    record_sent_for_test(
        &mut recovery,
        3,
        3_000,
        4_000,
        1_000,
        later(now, 2),
    );
    record_sent_for_test(
        &mut recovery,
        4,
        4_000,
        5_000,
        1_000,
        later(now, 3),
    );
    record_sent_for_test(
        &mut recovery,
        5,
        5_000,
        6_000,
        1_000,
        later(now, 4),
    );
    recovery.on_sack_blocks(
        ack(1_000, later(now, 30), 40),
        &[TcpSackBlock {
            left_edge: TcpSeq::new(2_000),
            right_edge: TcpSeq::new(3_000),
        }],
        &mut controller,
    );
    recovery.on_rack_timeout(
        later(now, 56),
        TcpSeq::new(6_000),
        &mut controller,
    );

    assert_eq!(
        recovery.recovery_send_space(recovery.bytes_in_flight(), 1_000),
        Some(1_000)
    );

    recovery.on_retransmit_sent(1_000);

    assert_eq!(
        recovery.recovery_send_space(recovery.bytes_in_flight(), 1_000),
        Some(0)
    );

    recovery.on_ack(
        ack(3_000, later(now, 90), 40),
        &mut controller,
    );

    assert_eq!(
        recovery.recovery_send_space(recovery.bytes_in_flight(), 1_000),
        Some(0)
    );

    recovery.on_ack(
        ack(4_000, later(now, 120), 40),
        &mut controller,
    );

    assert_eq!(
        recovery.recovery_send_space(recovery.bytes_in_flight(), 1_000),
        Some(1_000)
    );
}

#[test]
fn recovery_partial_ack_marks_new_head_for_retransmit_without_sack() {
    let now = start();
    let mut recovery = TcpRecoveryState::new();
    let mut controller = RecordingController::new(1_000);
    record_sent_for_test(&mut recovery, 1, 1_000, 2_000, 1_000, now);
    record_sent_for_test(
        &mut recovery,
        2,
        2_000,
        3_000,
        1_000,
        later(now, 1),
    );
    record_sent_for_test(
        &mut recovery,
        3,
        3_000,
        4_000,
        1_000,
        later(now, 2),
    );
    recovery.on_sack_blocks(
        ack(1_000, later(now, 30), 40),
        &[TcpSackBlock {
            left_edge: TcpSeq::new(2_000),
            right_edge: TcpSeq::new(3_000),
        }],
        &mut controller,
    );
    recovery.on_rack_timeout(
        later(now, 56),
        TcpSeq::new(4_000),
        &mut controller,
    );

    let first = recovery
        .take_rack_retransmit()
        .expect("first recovery retransmit");
    assert_eq!(first.sequence, TcpSeq::new(1_000));

    recovery.on_retransmit_sent(1_000);
    recovery.on_ack(
        ack(2_000, later(now, 90), 40),
        &mut controller,
    );

    let second = recovery
        .take_rack_retransmit()
        .expect("partial ack should schedule new head");
    assert_eq!(second.sequence, TcpSeq::new(3_000));
}

#[test]
fn clone_preserves_distinct_pending_rack_candidates() {
    let now = start();
    let mut recovery = TcpRecoveryState::new();
    let mut controller = RecordingController::new(1_000);
    record_sent_for_test(&mut recovery, 1, 1_000, 2_000, 1_000, now);
    record_sent_for_test(
        &mut recovery,
        2,
        2_000,
        3_000,
        1_000,
        later(now, 1),
    );
    record_sent_for_test(
        &mut recovery,
        3,
        3_000,
        4_000,
        1_000,
        later(now, 2),
    );

    recovery.on_sack_blocks(
        ack(1_000, later(now, 30), 40),
        &[TcpSackBlock {
            left_edge: TcpSeq::new(3_000),
            right_edge: TcpSeq::new(4_000),
        }],
        &mut controller,
    );

    let mut cloned = recovery.clone();
    cloned.on_rack_timeout(
        later(now, 60),
        TcpSeq::new(4_000),
        &mut controller,
    );
    let first = cloned
        .take_rack_retransmit()
        .expect("first pending retransmit");
    let second = cloned
        .take_rack_retransmit()
        .expect("second pending retransmit");

    assert_eq!(
        (first.sequence, second.sequence),
        (TcpSeq::new(1_000), TcpSeq::new(2_000))
    );
}

#[test]
fn mark_rack_candidates_does_not_lower_earliest_when_no_new_sample_marked() {
    let now = start();
    let mut recovery = TcpRecoveryState::new();
    let mut controller = RecordingController::new(1_000);
    record_sent_for_test(&mut recovery, 1, 1_000, 2_000, 1_000, now);
    record_sent_for_test(
        &mut recovery,
        2,
        2_000,
        3_000,
        1_000,
        later(now, 1),
    );

    recovery.on_sack_blocks(
        ack(1_000, later(now, 30), 80),
        &[TcpSackBlock {
            left_edge: TcpSeq::new(2_000),
            right_edge: TcpSeq::new(3_000),
        }],
        &mut controller,
    );
    let first_earliest = recovery.rack_earliest_full_scan();
    assert_eq!(
        recovery
            .rack_timeout(later(now, 30))
            .map(|d| d.as_micros() / 1_000),
        first_earliest.and_then(|d| {
            Some(
                d.saturating_duration_since(later(now, 30))
                    .as_micros() / 1_000,
            )
        }),
    );

    recovery.on_sack_blocks(
        ack(1_000, later(now, 31), 10),
        &[TcpSackBlock {
            left_edge: TcpSeq::new(2_000),
            right_edge: TcpSeq::new(3_000),
        }],
        &mut controller,
    );

    let expected =
        first_earliest.map(|d| d.saturating_duration_since(later(now, 31)));
    assert_eq!(
        recovery.rack_timeout(later(now, 31)),
        expected,
    );
    assert_eq!(recovery.rack_earliest_full_scan(), first_earliest);
}

#[test]
fn rack_earliest_deadline_is_o1_after_record_and_take() {
    let now = start();
    let mut recovery = TcpRecoveryState::new();
    let mut controller = RecordingController::new(1_000);
    record_sent_for_test(&mut recovery, 1, 1_000, 2_000, 1_000, now);
    record_sent_for_test(
        &mut recovery,
        2,
        2_000,
        3_000,
        1_000,
        later(now, 1),
    );
    assert_eq!(recovery.rack_timeout(now), None);

    recovery.on_sack_blocks(
        ack(1_000, later(now, 30), 40),
        &[TcpSackBlock {
            left_edge: TcpSeq::new(2_000),
            right_edge: TcpSeq::new(3_000),
        }],
        &mut controller,
    );
    let rto = recovery
        .rack_timeout(later(now, 30))
        .expect("rack deadline");
    assert_eq!(rto, Duration::from_millis(10));

    recovery.on_ack(
        ack(2_000, later(now, 50), 40),
        &mut controller,
    );
    assert_eq!(recovery.rack_timeout(later(now, 50)), None);
}

fn assert_rack_matches_scan(recovery: &TcpRecoveryState, at: Instant, label: &str) {
    let indexed = recovery.rack_timeout(at);
    let scanned = recovery
        .rack_earliest_full_scan()
        .map(|deadline| deadline.saturating_duration_since(at));
    assert_eq!(indexed, scanned, "{label}: rack index mismatch");
}

#[test]
fn rack_index_matches_full_scan_after_mixed_ops() {
    let now = start();
    let mut recovery = TcpRecoveryState::new();
    let mut controller = RecordingController::new(1_000);

    record_sent_for_test(&mut recovery, 1, 1_000, 2_000, 1_000, now);
    record_sent_for_test(
        &mut recovery,
        2,
        2_000,
        3_000,
        1_000,
        later(now, 1),
    );
    record_sent_for_test(
        &mut recovery,
        3,
        3_000,
        4_000,
        1_000,
        later(now, 2),
    );
    assert_rack_matches_scan(&recovery, now, "after record");

    recovery.on_sack_blocks(
        ack(1_000, later(now, 30), 40),
        &[TcpSackBlock {
            left_edge: TcpSeq::new(3_000),
            right_edge: TcpSeq::new(4_000),
        }],
        &mut controller,
    );
    assert_rack_matches_scan(&recovery, later(now, 30), "after sack");

    recovery.on_rack_timeout(
        later(now, 60),
        TcpSeq::new(4_000),
        &mut controller,
    );
    assert_rack_matches_scan(
        &recovery,
        later(now, 60),
        "after rack timeout",
    );

    let _ = recovery.take_rack_retransmit();
    assert_rack_matches_scan(
        &recovery,
        later(now, 60),
        "after take rack retransmit",
    );

    recovery.on_ack(
        ack(2_000, later(now, 70), 40),
        &mut controller,
    );
    assert_rack_matches_scan(&recovery, later(now, 70), "after ack");
}

#[test]
fn on_ack_fused_path_matches_pre_fuse_delivery_semantics() {
    let now = start();
    let mut recovery = TcpRecoveryState::new();
    let mut controller = RecordingController::new(1_000);

    record_sent_for_test(&mut recovery, 1, 1_000, 2_000, 1_000, now);
    record_sent_for_test(
        &mut recovery,
        2,
        2_000,
        3_000,
        1_000,
        later(now, 1),
    );
    record_sent_for_test(
        &mut recovery,
        3,
        3_000,
        4_000,
        1_000,
        later(now, 2),
    );
    record_sent_for_test(
        &mut recovery,
        4,
        4_000,
        5_000,
        1_000,
        later(now, 3),
    );
    assert_eq!(recovery.bytes_in_flight(), 4_000);

    recovery.on_sack_blocks(
        ack(1_000, later(now, 30), 40),
        &[TcpSackBlock {
            left_edge: TcpSeq::new(4_000),
            right_edge: TcpSeq::new(5_000),
        }],
        &mut controller,
    );
    recovery.on_rack_timeout(
        later(now, 56),
        TcpSeq::new(5_000),
        &mut controller,
    );
    assert!(recovery.in_recovery());
    let delivered_before = recovery.recovery_delivered();
    assert_eq!(delivered_before, 0);

    controller.acked.clear();
    controller.acked_bytes_in_flight.clear();
    controller.end_acks = 0;
    recovery.on_ack(
        ack(3_000, later(now, 90), 90),
        &mut controller,
    );
    assert_eq!(
        controller
            .acked
            .iter()
            .map(|p| p.packet_number)
            .collect::<Vec<_>>(),
        vec![1, 2],
        "cumulative ack must deliver segments in ascending order"
    );
    assert_eq!(
        controller.acked_bytes_in_flight.as_slice(),
        &[2_000, 1_000],
        "each segment must see what is left in flight after it"
    );
    assert_eq!(controller.end_acks, 1, "on_end_acks must fire once per ACK");
    assert_eq!(
        recovery.bytes_in_flight(),
        1_000,
        "bytes_in_flight must reflect taken segments"
    );
    assert_eq!(
        recovery.recovery_delivered(),
        2_000,
        "recovery_delivered must be credited by total acked bytes"
    );

    controller.acked.clear();
    controller.acked_bytes_in_flight.clear();
    controller.end_acks = 0;
    recovery.on_ack(
        ack(3_500, later(now, 120), 120),
        &mut controller,
    );
    assert_eq!(controller.acked.len(), 1);
    assert_eq!(controller.acked[0].packet_number, 3);
    assert_eq!(controller.acked[0].bytes, 500);
    assert_eq!(
        controller.acked_bytes_in_flight.as_slice(),
        &[500],
        "partial ack must deliver post-split bytes_in_flight"
    );
    assert_eq!(controller.end_acks, 1);
    assert_eq!(recovery.bytes_in_flight(), 500);
    assert_eq!(
        recovery.recovery_delivered(),
        2_500,
        "recovery_delivered must accumulate across ACKs"
    );

    controller.acked.clear();
    controller.acked_bytes_in_flight.clear();
    controller.end_acks = 0;
    recovery.on_ack(
        ack(3_500, later(now, 130), 130),
        &mut controller,
    );
    assert!(controller.acked.is_empty());
    assert!(controller.acked_bytes_in_flight.is_empty());
    assert_eq!(
        controller.end_acks, 0,
        "no-op ack must not fire on_end_acks"
    );
    assert_eq!(recovery.bytes_in_flight(), 500);
    assert_eq!(
        recovery.recovery_delivered(),
        2_500,
        "no-op ack must not credit recovery_delivered"
    );
}

#[test]
fn scoreboard_key_collector_preserves_order_and_overflow() {
    let mut c = ScoreboardKeyCollector::new();
    for i in 0..5u32 {
        c.push(TcpSeq::new(1_000 + i));
    }
    let mut out = Vec::new();
    while let Some(k) = c.pop_front() {
        out.push(u32::from(k));
    }
    assert_eq!(out, vec![1_000, 1_001, 1_002, 1_003, 1_004]);

    let mut c = ScoreboardKeyCollector::new();
    for i in 0..SCOREBOARD_KEY_INLINE_CAP as u32 {
        c.push(TcpSeq::new(2_000 + i));
    }
    let mut out = Vec::new();
    while let Some(k) = c.pop_front() {
        out.push(u32::from(k));
    }
    assert_eq!(out.len(), SCOREBOARD_KEY_INLINE_CAP);
    assert_eq!(out[0], 2_000);
    assert_eq!(
        out[SCOREBOARD_KEY_INLINE_CAP - 1],
        2_000 + (SCOREBOARD_KEY_INLINE_CAP - 1) as u32
    );

    let mut c = ScoreboardKeyCollector::new();
    for i in 0..(SCOREBOARD_KEY_INLINE_CAP + 4) as u32 {
        c.push(TcpSeq::new(3_000 + i));
    }
    let mut out = Vec::new();
    while let Some(k) = c.pop_front() {
        out.push(u32::from(k));
    }
    assert_eq!(out.len(), SCOREBOARD_KEY_INLINE_CAP + 4);
    for i in 0..out.len() {
        assert_eq!(
            out[i],
            3_000 + i as u32,
            "overflow must preserve order at {i}"
        );
    }

    let mut c = ScoreboardKeyCollector::new();
    for i in 0..(SCOREBOARD_KEY_INLINE_CAP + 2) as u32 {
        c.push(TcpSeq::new(4_000 + i));
    }
    let mut out = Vec::new();
    while let Some(k) = c.pop_back() {
        out.push(u32::from(k));
    }
    let total = SCOREBOARD_KEY_INLINE_CAP + 2;
    assert_eq!(out.len(), total);
    for i in 0..total {
        assert_eq!(out[i], 4_000 + (total - 1 - i) as u32, "rev order at {i}");
    }
}

#[test]
fn scoreboard_loss_correct_when_hole_count_exceeds_inline_cap() {
    let now = start();
    let mut recovery = TcpRecoveryState::new();
    let mut controller = RecordingController::new(1_000);
    const SEG: u32 = 1_000;
    const N: u32 = (SCOREBOARD_KEY_INLINE_CAP as u32) * 2 + 2; // 18 samples
    for i in 0..N {
        let seq = 1_000 + i * SEG;
        record_sent_for_test(
            &mut recovery,
            i as PacketNumber + 1,
            seq,
            seq + SEG,
            SEG,
            later(now, i as u64),
        );
    }

    let mut blocks: Vec<TcpSackBlock> = Vec::new();
    for i in 0..N {
        if i % 2 == 1 {
            let seq = 1_000 + i * SEG;
            blocks.push(TcpSackBlock {
                left_edge: TcpSeq::new(seq),
                right_edge: TcpSeq::new(seq + SEG),
            });
        }
    }
    recovery.on_sack_blocks(
        ack(1_000, later(now, 30), 40),
        &blocks,
        &mut controller,
    );
    let snap = recovery.scoreboard_snapshot();
    assert!(
        snap.holes.len() > SCOREBOARD_KEY_INLINE_CAP,
        "test must exceed inline cap; got {} holes",
        snap.holes.len()
    );

    recovery.on_rack_timeout(
        later(now, 80),
        TcpSeq::new(1_000 + N * SEG),
        &mut controller,
    );

    let snap = recovery.scoreboard_snapshot();
    assert!(
        snap.lost_bytes > 0,
        "loss marking must fire on oversized hole set"
    );

    let samples = recovery.sample_snapshot();
    let scanned_lost: u32 = samples
        .iter()
        .filter(|sample| sample.lost)
        .map(|sample| sample.bytes)
        .sum();
    assert_eq!(
        snap.lost_bytes, scanned_lost,
        "lost_bytes must match the per-sample lost scan on oversized hole sets"
    );

    assert!(
        snap.holes.iter().any(|hole| hole.lost),
        "at least one hole must be marked lost past the inline cap"
    );
}

struct Rng(u64);
impl Rng {
    fn next_u32(&mut self, bound: u32) -> u32 {
        let mut x = self.0;
        x ^= x << 13;
        x ^= x >> 7;
        x ^= x << 17;
        self.0 = x;
        ((x >> 32) as u32) % bound.max(1)
    }
}

#[test]
fn incremental_scoreboard_matches_full_rebuild_on_random_sack_sequences() {
    const MSS: u32 = 1_000;
    const SEG: u32 = 1_000;
    const MAX_SEGMENTS: u32 = 5;
    let now = start();
    let mut rng = Rng(0x9e37_79b9_7f4a_7c15);

    for sequence in 0..400u64 {
        let mut live = TcpRecoveryState::new();
        let mut oracle = TcpRecoveryState::new();
        let mut live_cc = FixedController::new(MSS);
        let mut oracle_cc = FixedController::new(MSS);
        let mut next_seq: u32 = 1_000;
        let mut cum_ack: u32 = 1_000;
        let mut step = 0u64;
        let steps = 8 + rng.next_u32(14) as u64;
        while step < steps {
            step += 1;
            let op = rng.next_u32(4);
            match op {
                0 => {
                    if next_seq >= 1_000 + MAX_SEGMENTS * SEG {
                        continue;
                    }
                    let seq = next_seq;
                    next_seq = next_seq.saturating_add(SEG);
                    let pn = ((seq / SEG) as u64).max(1) as PacketNumber;
                    record_sent_for_test(
                        &mut live,
                        pn,
                        seq,
                        seq + SEG,
                        SEG,
                        later(now, step),
                    );
                    record_sent_for_test(
                        &mut oracle,
                        pn,
                        seq,
                        seq + SEG,
                        SEG,
                        later(now, step),
                    );
                }
                1 => {
                    let hi = next_seq.max(cum_ack);
                    let ack_seq = cum_ack + rng.next_u32(hi.saturating_sub(cum_ack).max(1));
                    cum_ack = ack_seq;
                    let a = ack(ack_seq, later(now, 50 + step), 40);
                    live.on_ack(a, &mut live_cc);
                    oracle.on_ack(a, &mut oracle_cc);
                    let high_sacked = oracle.scoreboard_snapshot().high_sacked;
                    oracle.rebuild_scoreboard(TcpSeq::new(ack_seq), high_sacked, MSS);
                }
                2 => {
                    if next_seq < 2 * SEG {
                        continue;
                    }
                    let hi = next_seq.max(cum_ack);
                    let ack_seq = cum_ack + rng.next_u32(hi.saturating_sub(cum_ack).max(1));
                    cum_ack = ack_seq;
                    let mut blocks: Vec<TcpSackBlock> = Vec::new();
                    let nblocks = 1 + rng.next_u32(2) as usize;
                    for _ in 0..nblocks {
                        let span = next_seq.saturating_sub(ack_seq).max(1);
                        let lo = ack_seq + rng.next_u32(span);
                        let hi = (lo + 1 + rng.next_u32(span)).min(next_seq);
                        if hi > lo {
                            blocks.push(TcpSackBlock {
                                left_edge: TcpSeq::new(lo),
                                right_edge: TcpSeq::new(hi),
                            });
                        }
                    }
                    if blocks.is_empty() {
                        continue;
                    }
                    let a = ack(ack_seq, later(now, 50 + step), 40);
                    live.on_sack_blocks(a, &blocks, &mut live_cc);
                    oracle.on_sack_blocks(a, &blocks, &mut oracle_cc);
                }
                _ => {
                    let t = later(now, 200 + step);
                    live.on_rack_timeout(t, TcpSeq::new(next_seq), &mut live_cc);
                    oracle.on_rack_timeout(t, TcpSeq::new(next_seq), &mut oracle_cc);
                    while live.take_rack_retransmit().is_some() {}
                    while oracle.take_rack_retransmit().is_some() {}
                }
            }

            let live_snap = live.scoreboard_snapshot();
            let oracle_snap = oracle.scoreboard_snapshot();
            let live_samples = live.sample_snapshot();
            let oracle_samples = oracle.sample_snapshot();
            assert_eq!(
                live_snap.holes, oracle_snap.holes,
                "seq {sequence} step {step}: holes diverged",
            );
            assert_eq!(
                live_snap.high_sacked, oracle_snap.high_sacked,
                "seq {sequence} step {step}: high_sacked diverged",
            );
            assert_eq!(
                live_snap.high_rxt, oracle_snap.high_rxt,
                "seq {sequence} step {step}: high_rxt diverged",
            );
            assert_eq!(
                live_snap.lost_bytes, oracle_snap.lost_bytes,
                "seq {sequence} step {step}: lost_bytes diverged",
            );
            assert_eq!(
                live_samples, oracle_samples,
                "seq {sequence} step {step}: per-sample state diverged",
            );
        }
    }
}

#[test]
fn handshake_and_data_are_accounted_for_byte_by_byte() {
    let now = start();
    let mut recovery = TcpRecoveryState::new();
    let mut controller = RecordingController::new(1_460);
    let first = u32::MAX - 4;
    let at = |len: u32| first.wrapping_add(len);
    record_sent_for_test(&mut recovery, 1, first, at(11), 10, now);
    record_sent_for_test(&mut recovery, 2, at(11), at(111), 100, later(now, 1));
    record_sent_for_test(&mut recovery, 3, at(111), at(211), 100, later(now, 2));
    assert_eq!(recovery.bytes_in_flight(), 210);

    let rtt = recovery.on_ack(ack(at(6), later(now, 20), 20), &mut controller);
    assert_eq!(rtt, Some(Duration::from_millis(20)));
    assert_eq!(controller.acked[0].bytes, 6);
    assert_eq!(recovery.bytes_in_flight(), 204);

    let block = TcpSackBlock { left_edge: TcpSeq::new(at(31)), right_edge: TcpSeq::new(at(51)) };
    recovery.on_sack_blocks(ack(at(6), later(now, 25), 20), &[block], &mut controller);
    assert_eq!(recovery.bytes_in_flight(), 184);

    let rtt = recovery.on_ack(ack(at(161), later(now, 40), 20), &mut controller);
    assert_eq!(rtt, Some(Duration::from_millis(38)));
    let numbers: Vec<u64> = controller.acked.iter().map(|acked| acked.packet_number).collect();
    assert_eq!(numbers, vec![1, 2, 1, 2, 2, 3]);
    let bytes: Vec<u32> = controller.acked.iter().map(|acked| acked.bytes).collect();
    assert_eq!(bytes, vec![6, 20, 4, 20, 60, 50]);
    assert_eq!(controller.acked_bytes_in_flight, vec![204, 184, 180, 160, 100, 50]);
    assert_eq!(controller.end_acks, 3);
    assert_eq!(recovery.bytes_in_flight(), 50);

    let rtt = recovery.on_ack(ack(at(161), later(now, 41), 20), &mut controller);
    assert_eq!(rtt, None);
    assert_eq!(controller.acked.len(), 6);
    assert_eq!(controller.end_acks, 3);
}
