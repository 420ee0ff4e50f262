use hammer_transport::arith::{div_ceil_u128, narrow_u32, narrow_u64, saturating_mul_u32};
use hammer_transport::tcp::connection_options::{
    advertised_window_from_receive, normalize_tcp_capabilities, scaled_window_from_advertised,
    tcp_negotiate_options, TcpConnectionOptionState,
};
use hammer_transport::tcp::ecn::TcpEcnState;
use hammer_transport::tcp::listeners::{
    TcpIpv4ListenerAddress, TcpListenerTable, TcpLookupValue, TcpV4ListenerKey,
};
use hammer_transport::tcp::output::{
    tcp_available_send_window, tcp_effective_output_payload_len, tcp_output_next_sequence,
    tcp_output_sequence_len, tcp_payload_len_in_send_window, tcp_send_goal_size, TCP_FLAG_FIN,
    TCP_FLAG_SYN,
};
use hammer_transport::tcp::recovery_model::TcpSackBlock;
use hammer_transport::tcp::sack::TcpSackState;
use hammer_transport::tcp::timers::{
    TcpTimerState, TCP_TIMER_DELAYED_ACK, TCP_TIMER_PERSIST, TCP_TIMER_RETRANSMIT,
};
use hammer_transport::tcp::timestamps::{TcpTimestampState, TCP_PAWS_IDLE};
use hammer_transport::tcp::types::{
    DataWorkerId, IpEcnCodepoint, TcpCapabilities, TcpFastOpenCookie, TcpNegotiatedOptions,
    TcpSackList, TcpSegmentFlags,
};
use hammer_transport::tcp::{TcpRetransmitTimeoutState, TcpSeq};
use hammer_transport::time::{Duration, Instant};

fn millis(count: u64) -> Duration {
    Duration::from_millis(count)
}

fn at_millis(count: u128) -> Instant {
    Instant::from_nanos(count * 1_000_000)
}

#[test]
fn positions_wrap_around() {
    let last = TcpSeq::new(u32::MAX);
    assert_eq!(last.advance(3), TcpSeq::new(2));
    assert_eq!(last.distance_to(TcpSeq::new(2)), 3);
    assert!(last.is_before(TcpSeq::new(2)));
    assert!(TcpSeq::new(2).is_after(last));
    assert!(last.is_at_or_before(last) && last.is_at_or_after(last));
    assert_eq!(last.later(TcpSeq::new(2)), TcpSeq::new(2));
    assert_eq!(last.earlier(TcpSeq::new(2)), last);
}

fn local_offer() -> TcpCapabilities {
    TcpCapabilities {
        max_segment_size: Some(1_400),
        window_scale: Some(7),
        sack: true,
        timestamps: true,
        ..TcpCapabilities::default()
    }
}

fn remote_offer() -> TcpCapabilities {
    TcpCapabilities {
        max_segment_size: Some(1_200),
        window_scale: Some(3),
        sack: true,
        ecn: true,
        ..TcpCapabilities::default()
    }
}

#[test]
fn both_peers_settle_on_the_same_options() {
    let ours = tcp_negotiate_options(local_offer(), remote_offer());
    let theirs = tcp_negotiate_options(remote_offer(), local_offer());
    assert_eq!(ours.send_max_segment_size, Some(1_200));
    assert_eq!(ours.receive_max_segment_size, theirs.send_max_segment_size);
    assert_eq!(ours.send_window_scale, Some(3));
    assert_eq!(ours.receive_window_scale, theirs.send_window_scale);
    assert!(ours.sack && theirs.sack);
    assert!(!ours.timestamps && !theirs.ecn);
}

#[test]
fn one_sided_window_scales_do_not_count() {
    let unscaled = TcpCapabilities { window_scale: None, ..remote_offer() };
    let settled = tcp_negotiate_options(local_offer(), unscaled);
    assert_eq!((settled.send_window_scale, settled.receive_window_scale), (None, None));
}

#[test]
fn offers_are_brought_into_range() {
    let wild = TcpCapabilities {
        max_segment_size: Some(0),
        window_scale: Some(40),
        ..TcpCapabilities::default()
    };
    let tame = normalize_tcp_capabilities(wild);
    assert_eq!((tame.max_segment_size, tame.window_scale), (None, Some(14)));
}

#[test]
fn advertised_windows_are_read_as_meant() {
    let mut ours = TcpConnectionOptionState::new(local_offer());
    ours.apply_peer_handshake_capabilities(remote_offer());
    let mut theirs = TcpConnectionOptionState::new(remote_offer());
    theirs.apply_peer_handshake_capabilities(local_offer());
    let advertised = ours.advertised_receive_window(1_000_000);
    assert_eq!(advertised, 7_812);
    assert_eq!(theirs.effective_send_window(u32::from(advertised)), 999_936);
    assert!(1_000_000 - 999_936 < 1 << ours.effective_receive_window_scale());
    assert_eq!(advertised_window_from_receive(1_000_000, 7), 7_812);
    assert_eq!(advertised_window_from_receive(u32::MAX, 200), u16::MAX);
    assert_eq!(scaled_window_from_advertised(65_535, 14), 1_073_725_440);
    assert_eq!(scaled_window_from_advertised(65_535, 200), 1_073_725_440);
    assert_eq!(ours.advertised_receive_window(127), 0);
    assert_eq!(ours.advertised_receive_window(128), 1);
    assert_eq!(ours.advertised_receive_window(u32::MAX), u16::MAX);
    assert_eq!(ours.effective_send_window(u32::MAX), u32::MAX);
}

#[test]
fn round_trips_are_smoothed() {
    let mut state = TcpRetransmitTimeoutState::new();
    assert_eq!(state.retransmit_timeout(), millis(50));
    assert_eq!(state.observe_ack_sample(millis(100)), millis(300));
    assert_eq!(state.smoothed_rtt(), Some(millis(100)));
    assert_eq!(state.rtt_variance(), Some(millis(50)));
    state.observe_ack_sample(millis(180));
    assert_eq!(state.smoothed_rtt(), Some(millis(110)));
    assert_eq!(state.rtt_variance(), Some(Duration::from_micros(57_500)));
    assert_eq!(state.retransmit_timeout(), millis(340));
}

#[test]
fn steady_round_trips_settle_the_estimate() {
    let mut state = TcpRetransmitTimeoutState::new();
    state.observe_ack_sample(millis(80));
    let first = state.rtt_variance();
    state.observe_ack_sample(millis(80));
    assert_eq!(state.smoothed_rtt(), Some(millis(80)));
    assert_eq!(first, Some(millis(40)));
    assert_eq!(state.rtt_variance(), Some(millis(30)));
}

#[test]
fn sample_after_a_timeout_is_void() {
    let mut state = TcpRetransmitTimeoutState::new();
    state.observe_ack_sample(millis(100));
    assert_eq!(state.on_retransmission_timeout(), millis(600));
    assert_eq!(state.observe_ack_sample(millis(1)), millis(600));
    assert_eq!(state.smoothed_rtt(), Some(millis(100)));
    state.observe_ack_sample(millis(100));
    assert!(state.retransmit_timeout().as_nanos() < 600_000_000);
}

fn block(left: u32, right: u32) -> TcpSackBlock {
    TcpSackBlock { left_edge: TcpSeq::new(left), right_edge: TcpSeq::new(right) }
}

fn update(state: &mut TcpSackState, rcv_nxt: u32, left: u32, right: u32) {
    state.update_range(true, TcpSeq::new(rcv_nxt), TcpSeq::new(left), TcpSeq::new(right));
}

#[test]
fn newest_range_is_reported_first() {
    let mut state = TcpSackState::new();
    assert!(!state.has_output());
    update(&mut state, 100, 200, 210);
    update(&mut state, 100, 300, 310);
    let list = state.take_output(true, TcpSegmentFlags::ack());
    assert_eq!((list.first, list.second), (Some(block(300, 310)), Some(block(200, 210))));
    assert_eq!(state.take_output(true, TcpSegmentFlags::syn()), TcpSackList::empty());
    assert_eq!(state.take_output(false, TcpSegmentFlags::ack()), TcpSackList::empty());
}

#[test]
fn touching_ranges_become_one() {
    let mut state = TcpSackState::new();
    update(&mut state, 100, 200, 210);
    update(&mut state, 100, 220, 230);
    update(&mut state, 100, 210, 220);
    let list = state.take_output(true, TcpSegmentFlags::ack());
    assert_eq!((list.first, list.second), (Some(block(200, 230)), None));
}

#[test]
fn ranges_that_were_reached_are_gone() {
    let mut state = TcpSackState::new();
    update(&mut state, 100, 200, 210);
    update(&mut state, 100, 300, 310);
    update(&mut state, 250, 250, 250);
    let list = state.take_output(true, TcpSegmentFlags::ack());
    assert_eq!((list.first, list.second), (Some(block(300, 310)), None));
}

#[test]
fn duplicates_are_reported_once_and_first() {
    let mut state = TcpSackState::new();
    update(&mut state, 100, 200, 210);
    state.set_duplicate(true, TcpSeq::new(90), TcpSeq::new(100));
    let list = state.take_output(true, TcpSegmentFlags::ack());
    assert_eq!((list.first, list.second), (Some(block(90, 100)), Some(block(200, 210))));
    let list = state.take_output(true, TcpSegmentFlags::ack());
    assert_eq!((list.first, list.second), (Some(block(200, 210)), None));
}

#[test]
fn fired_timers_are_taken_up_once() {
    let mut timers = TcpTimerState::new();
    timers.set(TCP_TIMER_PERSIST);
    timers.set(TCP_TIMER_DELAYED_ACK);
    timers.expire(TCP_TIMER_DELAYED_ACK);
    assert!(timers.is_active(TCP_TIMER_PERSIST));
    assert!(!timers.is_active(TCP_TIMER_DELAYED_ACK));
    assert!(timers.dispatch_pending(TCP_TIMER_DELAYED_ACK));
    assert!(!timers.dispatch_pending(TCP_TIMER_DELAYED_ACK));

    timers.expire(TCP_TIMER_RETRANSMIT);
    timers.set(TCP_TIMER_RETRANSMIT);
    assert!(!timers.dispatch_pending(TCP_TIMER_RETRANSMIT));

    timers.expire(TCP_TIMER_PERSIST);
    timers.reset(TCP_TIMER_PERSIST);
    assert!(!timers.is_pending(TCP_TIMER_PERSIST));
}

#[test]
fn local_timestamps_go_forward() {
    let mut state = TcpTimestampState::new();
    let first = state.next_stamp(at_millis(5));
    let second = state.next_stamp(at_millis(5));
    let third = state.next_stamp(at_millis(25));
    assert_eq!((first.tsval, second.tsval, third.tsval), (1, 2, 20));
    assert_eq!(first.tsecr, 0);
    assert_eq!(state.observe_echo(2, at_millis(45)), Some(millis(38)));
    assert_eq!(state.observe_echo(0, at_millis(45)), None);
    assert_eq!(state.observe_echo(1_000, at_millis(45)), None);
}

#[test]
fn old_timestamps_are_refused_until_idle() {
    let mut state = TcpTimestampState::new();
    let start = at_millis(1);
    assert!(state.observe_inbound(100, true, start));
    assert_eq!(state.next_stamp(start).tsecr, 100);
    assert!(!state.observe_inbound(99, true, start));
    assert!(state.observe_inbound(200, false, start));
    assert_eq!(state.next_stamp(start).tsecr, 100);
    let much_later = Instant::from_nanos(start.nanos + TCP_PAWS_IDLE + 1);
    assert!(state.observe_inbound(99, false, much_later));
    assert_eq!(state.next_stamp(much_later).tsecr, 99);
}

#[test]
fn congestion_marks_are_echoed_until_confirmed() {
    let negotiated = TcpNegotiatedOptions { ecn: true, ..TcpNegotiatedOptions::default() };
    let mut state = TcpEcnState::new();
    state.observe(negotiated, TcpSegmentFlags::ack(), Some(IpEcnCodepoint::Ce));
    assert!(state.output_flags(negotiated, TcpSegmentFlags::ack()).ece);
    assert!(state.output_flags(negotiated, TcpSegmentFlags::ack()).ece);
    let confirmed = TcpSegmentFlags { cwr: true, ..TcpSegmentFlags::ack() };
    state.observe(negotiated, confirmed, None);
    assert!(!state.output_flags(negotiated, TcpSegmentFlags::ack()).ece);
}

#[test]
fn listener_keys_tell_scopes_and_ports_apart() {
    let value = TcpLookupValue {
        id: 1,
        owner_worker: DataWorkerId::new(0),
        capabilities: TcpCapabilities::default(),
    };
    let mut table = TcpListenerTable::<TcpIpv4ListenerAddress>::empty();
    table.insert(TcpV4ListenerKey::new(0, 1, 80), value);
    table.insert(TcpV4ListenerKey::new(1, 1, 80), TcpLookupValue { id: 2, ..value });
    let copy = table.clone();
    table.insert(TcpV4ListenerKey::new(0, 1, 80), TcpLookupValue { id: 3, ..value });
    let id = |found: Option<TcpLookupValue>| found.map(|value| value.id);
    assert_eq!(id(table.lookup(TcpV4ListenerKey::new(0, 1, 80))), Some(3));
    assert_eq!(id(table.lookup(TcpV4ListenerKey::new(1, 1, 80))), Some(2));
    assert_eq!(id(table.lookup(TcpV4ListenerKey::new(0, 1, 81))), None);
    assert_eq!(id(copy.lookup(TcpV4ListenerKey::new(0, 1, 80))), Some(1));
}

#[test]
fn segments_take_positions_for_their_flags() {
    assert_eq!(tcp_output_sequence_len(0, 5), 5);
    assert_eq!(tcp_output_sequence_len(TCP_FLAG_SYN, 5), 6);
    assert_eq!(tcp_output_sequence_len(TCP_FLAG_SYN | TCP_FLAG_FIN, 0), 2);
    assert_eq!(tcp_output_sequence_len(TCP_FLAG_FIN, 0x1_0000_0004), 5);
    assert_eq!(tcp_output_next_sequence(u32::MAX, 2), 1);
    assert_eq!(tcp_effective_output_payload_len(None), 1_440);
    assert_eq!(tcp_effective_output_payload_len(Some(0)), 1_440);
    assert_eq!(tcp_effective_output_payload_len(Some(536)), 536);
    assert_eq!(tcp_effective_output_payload_len(Some(9_000)), 1_440);
    assert_eq!(tcp_send_goal_size(Some(536)), 536);
}

#[test]
fn send_windows_limit_payloads() {
    assert_eq!(tcp_available_send_window(100, 150, 80, 1_000), 30);
    assert_eq!(tcp_available_send_window(100, 150, 1_000, 60), 10);
    assert_eq!(tcp_available_send_window(100, 300, 80, 1_000), 0);
    assert_eq!(tcp_available_send_window(u32::MAX, 9, 80, 1_000), 70);
    assert_eq!(tcp_payload_len_in_send_window(100, 150, 80, 1_000, 20, 0), 20);
    assert_eq!(tcp_payload_len_in_send_window(100, 150, 80, 1_000, 50, 0), 30);
    assert_eq!(tcp_payload_len_in_send_window(100, 150, 80, 1_000, 50, 2), 28);
}

#[test]
fn cookies_have_up_to_sixteen_bytes() {
    assert!(TcpFastOpenCookie::from_slice(&[]).is_none());
    let long = TcpFastOpenCookie::from_slice(&[1; 17]).expect("cookie");
    assert_eq!(long.to_vec(), vec![1; 16]);
    let cookie = TcpFastOpenCookie::from_slice(&[7, 8, 9, 10]).expect("cookie");
    assert_eq!(cookie.to_vec(), vec![7, 8, 9, 10]);
}

#[test]
fn arithmetic_saturates_and_rounds_up() {
    assert_eq!(saturating_mul_u32(70_000, 70_000), u32::MAX);
    assert_eq!(saturating_mul_u32(7, 6), 42);
    assert_eq!(narrow_u32(1 << 40), u32::MAX);
    assert_eq!(narrow_u64(u128::MAX), u64::MAX);
    assert_eq!(div_ceil_u128(0, 3), 0);
    assert_eq!(div_ceil_u128(7, 3), 3);
    assert_eq!(div_ceil_u128(u128::MAX, 1), u128::MAX);
}

#[test]
fn repeated_timeouts_double_up_to_the_longest() {
    let mut state = TcpRetransmitTimeoutState::new();
    for count in 1..=10u32 {
        assert_eq!(state.on_retransmission_timeout(), millis(50 << count));
    }
    assert_eq!(state.on_retransmission_timeout(), millis(60_000));
    assert_eq!(state.on_retransmission_timeout(), millis(60_000));
    assert_eq!(state.smoothed_rtt(), None);
}

#[test]
fn smoothed_round_trip_lies_between_its_samples() {
    let mut state = TcpRetransmitTimeoutState::new();
    for sample in [120, 80, 200, 90, 80, 200, 200, 81] {
        state.observe_ack_sample(millis(sample));
        let srtt = state.smoothed_rtt().expect("estimate").as_nanos();
        assert!(millis(80).as_nanos() <= srtt && srtt <= millis(200).as_nanos());
        if sample == 90 {
            state.on_retransmission_timeout();
            state.observe_ack_sample(millis(9_000));
            assert_eq!(state.smoothed_rtt().expect("estimate").as_nanos(), srtt);
        }
    }
}
