use hammer_transport::congestion::bbr::BbrAckSample;
use hammer_transport::congestion::{
    AckedPacket, BbrController, BbrMode, CongestionControlNext, CongestionControlNode,
    CongestionController, CubicStep, CubicWindow, LostPacket, RttSample,
};
use hammer_transport::tcp::congestion::{
    initial_congestion_window, min_congestion_window, TcpBbrMode, TcpBbrState,
    TcpCongestionAckSample, TcpCongestionAlgorithm, TcpCongestionControl, TcpCongestionState,
    DEFAULT_TCP_CONGESTION_MAX_SEGMENT_SIZE, TCP_BBR_HIGH_GAIN_MILLI, TCP_BBR_MIN_RTT_FILTER_NANOS,
    TCP_BBR_PROBE_RTT_NANOS,
};
use hammer_transport::tcp::congestion_control::{
    tcp_seq_distance, TcpCongestionAckObservation, TcpCongestionControlNode,
    TcpCongestionLossObservation, TcpCongestionSendObservation, TcpConnectionState,
};
use hammer_transport::tcp::types::{IpAddress, SocketAddress};
use hammer_transport::time::{Duration, Instant, MAX_DURATION_NANOS};

const TEST_MAX_SEGMENT_SIZE: u32 = 1_440;

fn start() -> Instant {
    Instant::from_nanos(1_000_000_000)
}

fn after(start: Instant, nanos: u128) -> Instant {
    Instant::from_nanos(start.nanos + nanos)
}

fn millis(count: u64) -> u128 {
    Duration::from_millis(count).as_nanos()
}

fn ack_sample(
    now: Instant,
    bytes_acked: u32,
    rtt: Duration,
    bytes_in_flight: u32,
) -> TcpCongestionAckSample {
    TcpCongestionAckSample { bytes_acked, rtt, now, bytes_in_flight }
}

fn test_bbr_state() -> TcpBbrState {
    TcpBbrState::new(TEST_MAX_SEGMENT_SIZE)
}

fn test_initial_window() -> u32 {
    initial_congestion_window(TEST_MAX_SEGMENT_SIZE)
}

fn test_min_window() -> u32 {
    min_congestion_window(TEST_MAX_SEGMENT_SIZE)
}

#[test]
fn bbr_starts_with_initial_window_and_algorithm() {
    let bbr = test_bbr_state();
    let default_bbr = TcpBbrState::default();

    assert_eq!(bbr.algorithm(), TcpCongestionAlgorithm::Bbr);
    assert_eq!(bbr.mode(), TcpBbrMode::Startup);
    assert_eq!(bbr.max_segment_size(), TEST_MAX_SEGMENT_SIZE);
    assert_eq!(bbr.congestion_window(), test_initial_window());
    assert_eq!(bbr.pacing_rate_bytes_per_second(), None);
    assert_eq!(default_bbr.algorithm(), TcpCongestionAlgorithm::Bbr);
    assert_eq!(
        default_bbr.congestion_window(),
        initial_congestion_window(DEFAULT_TCP_CONGESTION_MAX_SEGMENT_SIZE)
    );
}

#[test]
fn bbr_ack_updates_delivery_rate_min_rtt_window_and_pacing() {
    let now = start();
    let mut bbr = test_bbr_state();

    bbr.on_ack(ack_sample(
        now,
        TEST_MAX_SEGMENT_SIZE,
        Duration::from_millis(20),
        test_initial_window(),
    ));

    let expected_bandwidth = 72_000;
    assert_eq!(bbr.mode(), TcpBbrMode::Startup);
    assert_eq!(bbr.delivered(), u64::from(TEST_MAX_SEGMENT_SIZE));
    assert_eq!(bbr.min_rtt(), Some(Duration::from_millis(20)));
    assert_eq!(bbr.max_bandwidth_bytes_per_second(), expected_bandwidth);
    assert!(bbr.congestion_window() > test_initial_window());
    assert_eq!(
        bbr.pacing_rate_bytes_per_second(),
        Some(expected_bandwidth * u64::from(TCP_BBR_HIGH_GAIN_MILLI) / 1000)
    );
}

fn acknowledge<C: TcpCongestionControl>(control: &mut C, now: Instant) {
    control.on_ack(ack_sample(
        now,
        TEST_MAX_SEGMENT_SIZE,
        Duration::from_millis(20),
        test_initial_window(),
    ));
}

#[test]
fn bbr_state_implements_tcp_congestion_control_trait() {
    let now = start();
    let mut bbr = test_bbr_state();

    acknowledge(&mut bbr, now);

    assert_eq!(bbr.delivered(), u64::from(TEST_MAX_SEGMENT_SIZE));
    assert!(bbr.pacing_rate_bytes_per_second().is_some());
}

#[test]
fn bbr_loss_never_cuts_below_min_window() {
    let mut bbr = test_bbr_state();

    bbr.on_loss(u32::MAX);

    assert_eq!(bbr.congestion_window(), test_min_window());
}

#[test]
fn bbr_enters_and_leaves_probe_rtt_after_filter_expiry() {
    let now = start();
    let mut bbr = test_bbr_state();

    bbr.on_packet_sent(TEST_MAX_SEGMENT_SIZE, 0);
    bbr.on_ack(ack_sample(
        now,
        TEST_MAX_SEGMENT_SIZE,
        Duration::from_millis(10),
        test_initial_window(),
    ));
    bbr.on_packet_sent(TEST_MAX_SEGMENT_SIZE, 0);
    bbr.on_ack(ack_sample(
        after(now, TCP_BBR_MIN_RTT_FILTER_NANOS + millis(1)),
        TEST_MAX_SEGMENT_SIZE,
        Duration::from_millis(12),
        test_min_window(),
    ));

    assert_eq!(bbr.mode(), TcpBbrMode::ProbeRtt);
    assert_eq!(bbr.congestion_window(), test_min_window());

    bbr.on_packet_sent(TEST_MAX_SEGMENT_SIZE, 0);
    bbr.on_ack(ack_sample(
        after(
            now,
            TCP_BBR_MIN_RTT_FILTER_NANOS + TCP_BBR_PROBE_RTT_NANOS + millis(2),
        ),
        TEST_MAX_SEGMENT_SIZE,
        Duration::from_millis(12),
        test_min_window(),
    ));

    assert_eq!(bbr.mode(), TcpBbrMode::Startup);
}

#[test]
fn bbr_next_send_delay_uses_pacing_rate() {
    let now = start();
    let mut bbr = test_bbr_state();

    assert_eq!(bbr.next_send_delay(TEST_MAX_SEGMENT_SIZE), None);
    assert_eq!(bbr.next_send_delay(0), None);

    bbr.on_ack(ack_sample(
        now,
        TEST_MAX_SEGMENT_SIZE,
        Duration::from_millis(20),
        test_initial_window(),
    ));

    assert_eq!(bbr.next_send_delay(0), None);
    let pacing_rate = bbr
        .pacing_rate_bytes_per_second()
        .expect("positive ACK should establish pacing");
    let expected_delay_nanos =
        (u128::from(TEST_MAX_SEGMENT_SIZE) * 1_000_000_000u128) / u128::from(pacing_rate);
    assert_eq!(
        bbr.next_send_delay(TEST_MAX_SEGMENT_SIZE),
        Some(Duration::from_nanos(expected_delay_nanos as u64))
    );
}

#[test]
fn bbr_startup_rounds_require_send_markers() {
    let now = start();
    let mut bbr = test_bbr_state();

    bbr.on_packet_sent(TEST_MAX_SEGMENT_SIZE, 0);
    for round in 0..5 {
        bbr.on_ack(ack_sample(
            after(now, millis(round)),
            TEST_MAX_SEGMENT_SIZE,
            Duration::from_millis(10),
            test_initial_window(),
        ));
    }

    assert_eq!(bbr.mode(), TcpBbrMode::Startup);
}

#[test]
fn bbr_extreme_bdp_saturates_congestion_window() {
    let now = start();
    let longest = Duration { nanos: MAX_DURATION_NANOS };
    let mut bbr = test_bbr_state();

    bbr.on_packet_sent(u32::MAX, 0);
    bbr.on_ack(ack_sample(now, u32::MAX, Duration::from_micros(1), test_min_window()));
    assert!(bbr.max_bandwidth_bytes_per_second() > 0);

    bbr.on_packet_sent(TEST_MAX_SEGMENT_SIZE, 0);
    bbr.on_ack(ack_sample(
        after(now, TCP_BBR_MIN_RTT_FILTER_NANOS + millis(1)),
        TEST_MAX_SEGMENT_SIZE,
        longest,
        test_min_window(),
    ));
    assert_eq!(bbr.mode(), TcpBbrMode::ProbeRtt);

    bbr.on_packet_sent(TEST_MAX_SEGMENT_SIZE, 0);
    bbr.on_ack(ack_sample(
        after(
            now,
            TCP_BBR_MIN_RTT_FILTER_NANOS + TCP_BBR_PROBE_RTT_NANOS + millis(2),
        ),
        TEST_MAX_SEGMENT_SIZE,
        longest,
        test_min_window(),
    ));
    assert_eq!(bbr.congestion_window(), u32::MAX);
}

#[test]
fn bbr_tiny_positive_bandwidth_keeps_positive_pacing_rate() {
    let now = start();
    let mut bbr = test_bbr_state();

    for round in 0..4 {
        bbr.on_packet_sent(1, 0);
        bbr.on_ack(ack_sample(
            after(now, millis(round)),
            1,
            Duration::from_secs(1),
            test_initial_window(),
        ));
    }

    assert_eq!(bbr.mode(), TcpBbrMode::Drain);
    assert_eq!(bbr.max_bandwidth_bytes_per_second(), 1);
    assert_eq!(bbr.pacing_rate_bytes_per_second(), Some(1));
}

#[test]
fn tcp_seq_distance_handles_wraparound() {
    assert_eq!(tcp_seq_distance(u32::MAX - 10, 100), 111);
    assert_eq!(tcp_seq_distance(0, 100), 0);
    assert_eq!(tcp_seq_distance(100, 0), 0);
}

#[test]
fn congestion_observations_reach_the_controller() {
    let mut state = TcpConnectionState {
        snd_nxt: 5_000,
        congestion: TcpCongestionState::new(TEST_MAX_SEGMENT_SIZE),
    };
    TcpCongestionControlNode::observe_send(
        &mut state,
        TcpCongestionSendObservation { bytes_sent: 1_440, bytes_in_flight: 0, now: start() },
    );
    TcpCongestionControlNode::observe_ack(
        &mut state,
        TcpCongestionAckObservation {
            accepted_acknowledgment: 3_560,
            bytes_acked: 1_440,
            rtt: Duration::from_millis(20),
            now: start(),
        },
    );
    assert_eq!(state.congestion.delivered(), 1_440);
    assert_eq!(state.congestion.min_rtt(), Some(Duration::from_millis(20)));
    assert_eq!(state.congestion.max_bandwidth_bytes_per_second(), 72_000);
    TcpCongestionControlNode::observe_loss(
        &mut state,
        TcpCongestionLossObservation { bytes_lost: u32::MAX },
    );
    assert_eq!(state.congestion.congestion_window(), 4 * TEST_MAX_SEGMENT_SIZE);
}

#[test]
fn default_congestion_state_is_bbr_with_ten_segments() {
    let state = TcpCongestionState::with_default_max_segment_size();
    assert_eq!(state.algorithm(), TcpCongestionAlgorithm::Bbr);
    assert_eq!(state.max_segment_size(), 1_440);
    assert_eq!(state.congestion_window(), 14_400);
    assert_eq!(state.pacing_rate_bytes_per_second(), None);
    assert_eq!(state.next_send_delay(1), None);
}

#[test]
fn bbr_controller_starts_in_startup_and_keeps_its_floor() {
    let mut bbr = BbrController::new(1_200);
    assert_eq!(bbr.bbr_mode(), BbrMode::Startup);
    assert_eq!(bbr.max_datagram_size(), 1_200);
    assert_eq!(bbr.congestion_window(), 12_000);
    assert_eq!(bbr.delivered(), 0);
    assert_eq!(bbr.min_rtt(), None);

    bbr.on_loss(
        start(),
        LostPacket { packet_number: 1, bytes: u32::MAX, sent_at: start() },
        true,
    );
    assert_eq!(bbr.congestion_window(), 4_800);
}

#[test]
fn bbr_controller_measures_bandwidth_from_acknowledged_packets() {
    let mut bbr = BbrController::new(1_000);
    bbr.on_packet_sent(1, 1_000, 0, start());
    bbr.on_ack(
        after(start(), millis(10)),
        AckedPacket {
            packet_number: 1,
            bytes: 1_000,
            sent_at: start(),
            app_limited: false,
            ecn_ce_count: 0,
        },
        RttSample { latest: Duration::from_millis(10), min: Duration::from_millis(10) },
        0,
    );
    bbr.on_end_acks(after(start(), millis(10)), 0, false, 1);
    assert_eq!(bbr.delivered(), 1_000);
    assert_eq!(bbr.min_rtt(), Some(Duration::from_millis(10)));
    assert_eq!(bbr.max_bandwidth_bytes_per_second(), 100_000);
    assert_eq!(
        bbr.next_send_delay(1_000),
        bbr.pacing_rate_bytes_per_second()
            .map(|rate| Duration::from_nanos((1_000 * 1_000_000_000u64).div_ceil(rate)))
    );
}

#[test]
fn congestion_stage_drops_buffers_without_addresses() {
    let address = Some(SocketAddress::new(IpAddress::V4(0xc000_020a), 443));
    assert_eq!(
        CongestionControlNode::next(address, address),
        CongestionControlNext::Transmit
    );
    assert_eq!(CongestionControlNode::next(None, address), CongestionControlNext::Drop);
    assert_eq!(CongestionControlNode::next(address, None), CongestionControlNext::Drop);
}

fn cubic_ack(bytes: u32) -> AckedPacket {
    AckedPacket {
        packet_number: 1,
        bytes,
        sent_at: Instant::from_nanos(0),
        app_limited: false,
        ecn_ce_count: 0,
    }
}

fn cubic_loss(bytes: u32) -> LostPacket {
    LostPacket { packet_number: 1, bytes, sent_at: Instant::from_nanos(0) }
}

fn cubic_rtt(millis: u64) -> RttSample {
    RttSample { latest: Duration::from_millis(millis), min: Duration::from_millis(millis) }
}

#[test]
fn cubic_window_starts_slowly_and_paces_itself() {
    let mut window = CubicWindow::default();
    assert_eq!(window.congestion_window(), 14_600);
    assert_eq!(window.minimum_window(), 2_920);
    assert_eq!(window.next_send_delay(100), None);
    let now = Instant::from_nanos(5);
    assert_eq!(window.on_ack(now, cubic_ack(0), cubic_rtt(10)), CubicStep::Settled);
    assert_eq!(window.metrics().delivered, 0);
    assert_eq!(window.on_ack(now, cubic_ack(1_460), cubic_rtt(10)), CubicStep::Settled);
    let metrics = window.metrics();
    assert_eq!(metrics.congestion_window, 16_060);
    assert_eq!(metrics.delivered, 1_460);
    assert_eq!(metrics.max_bandwidth_bytes_per_second, 146_000);
    assert_eq!(metrics.pacing_rate_bytes_per_second, Some(1_606_000));
    assert_eq!(metrics.min_rtt, Some(Duration::from_millis(10)));
    assert_eq!(window.next_send_delay(1_606), Some(Duration::from_millis(1)));
    assert_eq!(window.next_send_delay(0), None);
}

#[test]
fn cubic_window_follows_its_curve_after_a_loss() {
    let mut window = CubicWindow::new(1_000);
    window.on_loss(cubic_loss(0), 1);
    assert_eq!(window.congestion_window(), 10_000);
    window.on_loss(cubic_loss(1_000), 7_000);
    assert_eq!(window.congestion_window(), 7_000);

    let start = Instant::from_nanos(1_000);
    assert_eq!(
        window.on_ack(start, cubic_ack(700), cubic_rtt(20)),
        CubicStep::FollowCurve {
            epoch_started: true,
            since_epoch: Duration::zero(),
            min_rtt: Duration::from_millis(20),
        }
    );
    window.grow(700, 14_000);
    assert_eq!(window.congestion_window(), 7_700);
    window.grow(770, 0);
    assert_eq!(window.congestion_window(), 7_800);
    window.grow(1, 0);
    assert_eq!(window.congestion_window(), 7_801);

    let later = Instant::from_nanos(5_000);
    assert_eq!(
        window.on_ack(later, cubic_ack(1), cubic_rtt(30)),
        CubicStep::FollowCurve {
            epoch_started: false,
            since_epoch: Duration::from_nanos(4_000),
            min_rtt: Duration::from_millis(20),
        }
    );

    window.on_mtu_update(5_000);
    assert_eq!(window.congestion_window(), 10_000);
    window.on_loss(cubic_loss(1), 3);
    assert_eq!(window.congestion_window(), 10_000);
}

fn measured(bytes: u32) -> AckedPacket {
    AckedPacket {
        packet_number: 1,
        bytes,
        sent_at: start(),
        app_limited: false,
        ecn_ce_count: 0,
    }
}

fn draining(max_bandwidth_bytes_per_second: u64, bytes_in_flight: u32) -> BbrController {
    let mut bbr = BbrController {
        mode: BbrMode::Drain,
        min_rtt: Some(Duration::from_millis(100)),
        max_bandwidth_bytes_per_second,
        ..BbrController::new(1_200)
    };
    let rtt = Duration::from_millis(200);
    bbr.on_ack(start(), measured(1), RttSample { latest: rtt, min: rtt }, bytes_in_flight);
    bbr
}

#[test]
fn target_window_is_the_gain_times_the_bandwidth_delay_product() {
    assert_eq!(draining(1_000_000, u32::MAX).congestion_window(), 200_000);
    assert_eq!(draining(1_000_000, 100_000).bbr_mode(), BbrMode::ProbeBw);
    assert_eq!(draining(1_000_000, 100_001).bbr_mode(), BbrMode::Drain);
    assert_eq!(draining(1_000, u32::MAX).congestion_window(), 4_800);
    assert_eq!(draining(u64::MAX, u32::MAX).congestion_window(), u32::MAX);
}

#[test]
fn probe_rtt_waits_until_its_window_is_reached() {
    let mut bbr = BbrController::new(1_200);
    let rtt = RttSample { latest: Duration::from_millis(10), min: Duration::from_millis(10) };
    let slow = RttSample { latest: Duration::from_millis(20), min: Duration::from_millis(20) };
    bbr.on_ack(start(), measured(1_200), rtt, 12_000);
    for second in 11..60u64 {
        let now = after(start(), millis(second * 1_000));
        bbr.on_packet_sent(second, 1_200, 0, now);
        bbr.on_ack(now, measured(1_200_000), slow, 4_801);
        assert_eq!(bbr.bbr_mode(), BbrMode::ProbeRtt);
        assert_eq!(bbr.probe_rtt_done_stamp, None);
        assert_eq!(bbr.congestion_window(), 4_800);
    }
    let now = after(start(), millis(60_000));
    bbr.on_ack(now, measured(1_200), slow, 4_800);
    assert_eq!(bbr.probe_rtt_done_stamp, Some(after(now, millis(200))));
}

#[test]
fn tcp_probe_rtt_waits_until_its_window_is_reached() {
    let mut bbr = test_bbr_state();
    let crowd = test_min_window() + 1;
    bbr.on_ack(ack_sample(start(), 1_440, Duration::from_millis(10), crowd));
    for second in 11..60u64 {
        let now = after(start(), millis(second * 1_000));
        bbr.on_packet_sent(1_440, 0);
        bbr.on_loss(1_440);
        bbr.on_ack(ack_sample(now, 1_440_000, Duration::from_millis(20), crowd));
        assert_eq!(bbr.mode(), TcpBbrMode::ProbeRtt);
        assert_eq!(bbr.congestion_window(), test_min_window());
    }
}

#[test]
fn startup_adds_up_what_is_acknowledged() {
    let mut state = TcpCongestionState::new(1_000);
    let rtt = Duration::from_millis(10);
    for second in [0u64, 1, 4, 10] {
        let now = after(start(), millis(second * 1_000));
        state.on_ack(ack_sample(now, 500, rtt, 0));
    }
    assert_eq!(state.congestion_window(), 12_000);
    assert_eq!(state.max_bandwidth_bytes_per_second(), 50_000);
    assert_eq!(state.pacing_rate_bytes_per_second(), Some(144_250));

    state.on_ack(ack_sample(after(start(), millis(10_000)), u32::MAX, rtt, 0));
    assert_eq!(state.congestion_window(), u32::MAX);

    let mut tiny = TcpCongestionState::new(0);
    tiny.on_ack(ack_sample(start(), 1, Duration::from_secs(1), 0));
    assert_eq!(tiny.congestion_window(), 11);
    assert_eq!(tiny.pacing_rate_bytes_per_second(), Some(2));
}

#[test]
fn minimum_round_trip_lasts_ten_seconds() {
    let min_after = |second_rtt: u64, apart: u64| {
        let mut state = TcpCongestionState::new(1_440);
        state.on_ack(ack_sample(start(), 1, Duration::from_millis(10), 0));
        let now = after(start(), millis(apart));
        state.on_ack(ack_sample(now, 1, Duration::from_millis(second_rtt), 0));
        state.min_rtt()
    };
    assert_eq!(min_after(9, 1), Some(Duration::from_millis(9)));
    assert_eq!(min_after(11, 1), Some(Duration::from_millis(10)));
    assert_eq!(min_after(11, 10_000), Some(Duration::from_millis(10)));
    assert_eq!(min_after(11, 10_001), Some(Duration::from_millis(11)));
}

#[test]
fn target_windows_follow_the_gain() {
    let bbr = BbrController {
        min_rtt: Some(Duration::from_millis(100)),
        max_bandwidth_bytes_per_second: 1_000_000,
        ..BbrController::new(1_200)
    };
    assert_eq!(bbr.target_congestion_window(0), 4_800);
    assert_eq!(bbr.target_congestion_window(1_000), 100_000);
    assert_eq!(bbr.target_congestion_window(2_885), 288_500);
    assert_eq!(BbrController::new(1_200).target_congestion_window(1_000), 12_000);
    assert_eq!(test_bbr_state().target_congestion_window(7), test_initial_window());
}

#[test]
fn probe_rtt_update_waits_for_its_window() {
    let mut bbr = BbrController { mode: BbrMode::ProbeRtt, ..BbrController::new(1_200) };
    let sample = |second: u64| BbrAckSample {
        bytes_acked: 1,
        rtt: Duration::from_millis(10),
        now: after(start(), millis(second * 1_000)),
    };
    for second in 0..20 {
        bbr.round_start = second % 2 == 0;
        bbr.update_probe_rtt(sample(second), 4_801);
        assert_eq!(bbr.bbr_mode(), BbrMode::ProbeRtt);
        assert_eq!(bbr.congestion_window(), 4_800);
    }
    bbr.update_probe_rtt(sample(20), 4_800);
    bbr.round_start = true;
    bbr.update_probe_rtt(sample(21), 4_800);
    assert_eq!(bbr.bbr_mode(), BbrMode::Startup);
}

#[test]
fn deliveries_add_up_and_the_best_rate_stays() {
    let mut bbr = BbrController::new(1_200);
    let mut tcp = TcpCongestionState::new(1_200);
    for (bytes, rtt) in [(1_000u32, 10u64), (3_000, 10), (500, 20)] {
        let sample = Duration::from_millis(rtt);
        bbr.on_ack(start(), measured(bytes), RttSample { latest: sample, min: sample }, 0);
        bbr.on_packet_sent(1, 100, 0, start());
        bbr.on_loss(start(), LostPacket { packet_number: 1, bytes: 9, sent_at: start() }, false);
        tcp.on_ack(ack_sample(start(), bytes, sample, 0));
        tcp.on_packet_sent(100, 0);
        tcp.on_loss(9);
    }
    assert_eq!((bbr.delivered(), tcp.delivered()), (4_500, 4_500));
    assert_eq!(bbr.max_bandwidth_bytes_per_second(), 300_000);
    assert_eq!(tcp.max_bandwidth_bytes_per_second(), 300_000);
}

#[test]
fn modes_move_on_and_pace_by_their_gains() {
    let mut bbr = test_bbr_state();
    let mut now = start();
    let mut seen = vec![bbr.mode()];
    assert_eq!(bbr.pacing_rate_bytes_per_second(), None);
    for round in 0..400u32 {
        now = after(now, millis(50));
        let in_flight = if round < 20 { 1_000_000 } else { 0 };
        bbr.on_packet_sent(1_440, 0);
        bbr.on_ack(ack_sample(now, 14_400, Duration::from_millis(50 + u64::from(round)), in_flight));
        if *seen.last().unwrap() != bbr.mode() {
            seen.push(bbr.mode());
        }
        let bandwidth = bbr.max_bandwidth_bytes_per_second();
        let rate = bbr.pacing_rate_bytes_per_second().expect("rate");
        assert!([2_885, 347, 1_250, 750, 1_000].iter().any(|gain| rate == bandwidth * gain / 1_000));
        assert!(bbr.congestion_window() >= test_min_window());
    }
    assert_eq!(seen[..4], [
        TcpBbrMode::Startup,
        TcpBbrMode::Drain,
        TcpBbrMode::ProbeBw,
        TcpBbrMode::ProbeRtt,
    ]);
    assert!(seen[1..].iter().all(|mode| *mode != TcpBbrMode::Startup));
    for pair in seen.windows(2) {
        assert!(match pair[0] {
            TcpBbrMode::Startup => pair[1] != TcpBbrMode::ProbeBw,
            TcpBbrMode::Drain => pair[1] != TcpBbrMode::Startup,
            TcpBbrMode::ProbeBw => pair[1] == TcpBbrMode::ProbeRtt,
            TcpBbrMode::ProbeRtt => pair[1] == TcpBbrMode::ProbeBw,
        });
    }
}
