//! BBR as a TCP congestion control with per-acknowledgment samples.
use vstd::prelude::*;

use crate::arith;
use crate::arith::{
    max_u32, max_u64, narrow_u32, narrow_u64, saturating_mul_u128, saturating_mul_u32,
};
use crate::tcp::output::DEFAULT_TCP_OUTPUT_PAYLOAD_LEN;
use crate::time::{Duration, Instant};

verus! {

pub const DEFAULT_TCP_CONGESTION_MAX_SEGMENT_SIZE: u32 = 1_440;

pub const TCP_BBR_INITIAL_WINDOW_SEGMENTS: u32 = 10;

pub const TCP_BBR_MIN_WINDOW_SEGMENTS: u32 = 4;

pub const TCP_BBR_HIGH_GAIN_MILLI: u32 = 2885;

pub const TCP_BBR_DRAIN_GAIN_MILLI: u32 = 347;

pub const TCP_BBR_CWND_GAIN_MILLI: u32 = 2000;

/// How long a ProbeRtt episode lasts: 200 ms.
pub const TCP_BBR_PROBE_RTT_NANOS: u128 = 200_000_000;

/// How long a minimum round-trip time stays valid: 10 s.
pub const TCP_BBR_MIN_RTT_FILTER_NANOS: u128 = 10_000_000_000;

/// Rounds without growth after which the pipe counts as full.
pub const TCP_BBR_FULL_BANDWIDTH_ROUNDS: u8 = 3;

/// Number of phases in the ProbeBw gain cycle.
pub const TCP_PROBE_BW_CYCLE_LEN: usize = 8;

/// The congestion control algorithms that a connection can run.
#[derive(Clone, Copy, Debug, PartialEq, Eq, Structural)]
pub enum TcpCongestionAlgorithm {
    Bbr,
}

#[derive(Clone, Copy, Debug, PartialEq, Eq, Structural)]
pub enum TcpBbrMode {
    Startup,
    Drain,
    ProbeBw,
    ProbeRtt,
}

/// What one acknowledgment tells the controller.
#[derive(Clone, Copy, Debug, PartialEq, Eq, Structural)]
pub struct TcpCongestionAckSample {
    pub bytes_acked: u32,
    pub rtt: Duration,
    pub now: Instant,
    pub bytes_in_flight: u32,
}

/// A TCP congestion control algorithm as a deterministic state machine.
pub trait TcpCongestionControl: Sized {
    /// What holds of the state between any two events.
    spec fn well_formed(&self) -> bool;

    spec fn spec_algorithm(&self) -> TcpCongestionAlgorithm;

    spec fn spec_congestion_window(&self) -> u32;

    spec fn spec_pacing_rate(&self) -> Option<u64>;

    spec fn spec_delivered(&self) -> u64;

    spec fn spec_min_rtt(&self) -> Option<Duration>;

    spec fn spec_max_bandwidth(&self) -> u64;

    spec fn spec_next_send_delay(&self, pending_bytes: u32) -> Option<Duration>;

    spec fn after_packet_sent(self, bytes_sent: u32, bytes_in_flight: u32) -> Self;

    spec fn after_ack(self, sample: TcpCongestionAckSample) -> Self;

    spec fn after_loss(self, bytes_lost: u32) -> Self;

    fn algorithm(&self) -> (r: TcpCongestionAlgorithm)
        requires
            self.well_formed(),
        ensures
            r == self.spec_algorithm(),
    ;

    fn congestion_window(&self) -> (r: u32)
        requires
            self.well_formed(),
        ensures
            r == self.spec_congestion_window(),
    ;

    fn pacing_rate_bytes_per_second(&self) -> (r: Option<u64>)
        requires
            self.well_formed(),
        ensures
            r == self.spec_pacing_rate(),
    ;

    fn delivered(&self) -> (r: u64)
        requires
            self.well_formed(),
        ensures
            r == self.spec_delivered(),
    ;

    fn min_rtt(&self) -> (r: Option<Duration>)
        requires
            self.well_formed(),
        ensures
            r == self.spec_min_rtt(),
    ;

    fn max_bandwidth_bytes_per_second(&self) -> (r: u64)
        requires
            self.well_formed(),
        ensures
            r == self.spec_max_bandwidth(),
    ;

    fn on_packet_sent(&mut self, bytes_sent: u32, bytes_in_flight: u32)
        requires
            old(self).well_formed(),
        ensures
            final(self).well_formed(),
            *final(self) == old(self).after_packet_sent(bytes_sent, bytes_in_flight),
    ;

    fn on_ack(&mut self, sample: TcpCongestionAckSample)
        requires
            old(self).well_formed(),
            sample.now.nanos + TCP_BBR_PROBE_RTT_NANOS <= u128::MAX,
        ensures
            final(self).well_formed(),
            *final(self) == old(self).after_ack(sample),
    ;

    fn on_loss(&mut self, bytes_lost: u32)
        requires
            old(self).well_formed(),
        ensures
            final(self).well_formed(),
            *final(self) == old(self).after_loss(bytes_lost),
    ;

    fn next_send_delay(&self, pending_bytes: u32) -> (r: Option<Duration>)
        requires
            self.well_formed(),
        ensures
            r == self.spec_next_send_delay(pending_bytes),
    ;
}

/// A whole number of segments, of at least one byte each.
pub open spec fn segments(max_segment_size: u32, count: u32) -> u32 {
    arith::saturate_u32(vstd::math::max(max_segment_size as int, 1) * count)
}

pub open spec fn spec_initial_congestion_window(max_segment_size: u32) -> u32 {
    segments(max_segment_size, TCP_BBR_INITIAL_WINDOW_SEGMENTS)
}

pub open spec fn spec_min_congestion_window(max_segment_size: u32) -> u32 {
    segments(max_segment_size, TCP_BBR_MIN_WINDOW_SEGMENTS)
}

/// The pacing gain of one phase of the ProbeBw cycle: probe, drain, then cruise.
pub open spec fn spec_probe_bw_gain(cycle_index: usize) -> u32 {
    if cycle_index == 0 {
        1250
    } else if cycle_index == 1 {
        750
    } else {
        1000
    }
}

/// Bytes per second over one round trip of at least a microsecond.
pub open spec fn delivery_rate(bytes_acked: u32, rtt: Duration) -> u64 {
    arith::saturate_u64(
        (bytes_acked * 1_000_000) / vstd::math::max((rtt.nanos / 1000) as int, 1),
    )
}

pub fn initial_congestion_window(max_segment_size: u32) -> (r: u32)
    ensures
        r == spec_initial_congestion_window(max_segment_size),
{
    saturating_mul_u32(max_u32(max_segment_size, 1), TCP_BBR_INITIAL_WINDOW_SEGMENTS)
}

pub fn min_congestion_window(max_segment_size: u32) -> (r: u32)
    ensures
        r == spec_min_congestion_window(max_segment_size),
{
    saturating_mul_u32(max_u32(max_segment_size, 1), TCP_BBR_MIN_WINDOW_SEGMENTS)
}

/// The window held during ProbeRtt.
pub fn probe_rtt_window(max_segment_size: u32) -> (r: u32)
    ensures
        r == spec_min_congestion_window(max_segment_size),
{
    min_congestion_window(max_segment_size)
}

fn probe_bw_gain(cycle_index: usize) -> (r: u32)
    ensures
        r == spec_probe_bw_gain(cycle_index),
{
    if cycle_index == 0 {
        1250
    } else if cycle_index == 1 {
        750
    } else {
        1000
    }
}

/// The state of BBR for one TCP connection.
#[derive(Clone, Copy, Debug, PartialEq, Eq, Structural)]
pub struct TcpBbrState {
    pub algorithm: TcpCongestionAlgorithm,
    pub max_segment_size: u32,
    pub mode: TcpBbrMode,
    pub congestion_window: u32,
    pub pacing_rate_bytes_per_second: Option<u64>,
    pub max_bandwidth_bytes_per_second: u64,
    pub min_rtt: Option<Duration>,
    pub min_rtt_stamp: Option<Instant>,
    pub delivered: u64,
    pub next_round_delivered: u64,
    pub round_end_marker_active: bool,
    pub round_start: bool,
    pub full_bandwidth_bytes_per_second: u64,
    pub full_bandwidth_rounds: u8,
    pub cycle_index: usize,
    pub cycle_stamp: Option<Instant>,
    pub probe_rtt_done_stamp: Option<Instant>,
    pub probe_rtt_round_done: bool,
    pub prior_mode: TcpBbrMode,
}

impl TcpBbrState {
    pub open spec fn initial(max_segment_size: u32) -> TcpBbrState {
        TcpBbrState {
            algorithm: TcpCongestionAlgorithm::Bbr,
            max_segment_size: vstd::math::max(max_segment_size as int, 1) as u32,
            mode: TcpBbrMode::Startup,
            congestion_window: spec_initial_congestion_window(max_segment_size),
            pacing_rate_bytes_per_second: None,
            max_bandwidth_bytes_per_second: 0,
            min_rtt: None,
            min_rtt_stamp: None,
            delivered: 0,
            next_round_delivered: 0,
            round_end_marker_active: false,
            round_start: false,
            full_bandwidth_bytes_per_second: 0,
            full_bandwidth_rounds: 0,
            cycle_index: 0,
            cycle_stamp: None,
            probe_rtt_done_stamp: None,
            probe_rtt_round_done: false,
            prior_mode: TcpBbrMode::Startup,
        }
    }

    /// `gain_milli` thousandths of the bandwidth-delay product, within the
    /// window's bounds; the initial window while either estimate is missing.
    pub open spec fn spec_target_congestion_window(self, gain_milli: u32) -> u32 {
        match self.min_rtt {
            Some(min_rtt) if self.max_bandwidth_bytes_per_second != 0 => {
                let product = arith::saturate_u128(
                    arith::saturate_u128(
                        self.max_bandwidth_bytes_per_second * (min_rtt.nanos / 1000),
                    ) * gain_milli,
                );
                vstd::math::max(
                    arith::saturate_u32((product as int / 1_000_000) / 1000) as int,
                    spec_min_congestion_window(self.max_segment_size) as int,
                ) as u32
            },
            _ => spec_initial_congestion_window(self.max_segment_size),
        }
    }

    /// `bytes` more were delivered; a round ends when the marker is crossed.
    pub open spec fn delivery_counted(self, bytes: u32) -> Self {
        let delivered = arith::saturate_u64(self.delivered + bytes);
        let round_start = self.round_end_marker_active && self.delivered
            < self.next_round_delivered && delivered >= self.next_round_delivered;
        TcpBbrState {
            delivered,
            round_start,
            round_end_marker_active: self.round_end_marker_active && !round_start,
            ..self
        }
    }

    /// Whether the minimum round-trip time has outlived its filter.
    pub open spec fn min_rtt_expired(self, now: Instant) -> bool {
        self.min_rtt_stamp matches Some(stamp) && now.spec_since(stamp).nanos
            > TCP_BBR_MIN_RTT_FILTER_NANOS
    }

    pub open spec fn probe_rtt_entered(self, now: Instant) -> Self {
        if self.mode != TcpBbrMode::ProbeRtt && self.min_rtt_expired(now) {
            TcpBbrState {
                prior_mode: self.mode,
                mode: TcpBbrMode::ProbeRtt,
                probe_rtt_done_stamp: None,
                probe_rtt_round_done: false,
                congestion_window: spec_min_congestion_window(self.max_segment_size),
                ..self
            }
        } else {
            self
        }
    }

    pub open spec fn min_rtt_updated(self, rtt: Duration, now: Instant) -> Self {
        let improved = match self.min_rtt {
            Some(min_rtt) => rtt.nanos <= min_rtt.nanos,
            None => true,
        };
        if improved || self.min_rtt_expired(now) {
            TcpBbrState { min_rtt: Some(rtt), min_rtt_stamp: Some(now), ..self }
        } else {
            self
        }
    }

    /// The estimate rises to the sample's rate.
    pub open spec fn bandwidth_updated(self, bytes_acked: u32, rtt: Duration) -> Self {
        TcpBbrState {
            max_bandwidth_bytes_per_second: vstd::math::max(
                self.max_bandwidth_bytes_per_second as int,
                delivery_rate(bytes_acked, rtt) as int,
            ) as u64,
            ..self
        }
    }

    /// The bandwidth that counts as growth over the last full-pipe mark: a
    /// quarter more, and at least one byte per second more.
    pub open spec fn growth_target(self) -> u64 {
        let full = self.full_bandwidth_bytes_per_second as int;
        arith::saturate_u64(full + vstd::math::max(full / 4, 1))
    }

    pub open spec fn startup_updated(self, bytes_acked: u32) -> Self {
        let grown = TcpBbrState {
            congestion_window: vstd::math::max(
                arith::saturate_u32(self.congestion_window + bytes_acked) as int,
                spec_min_congestion_window(self.max_segment_size) as int,
            ) as u32,
            ..self
        };
        if !self.round_start {
            grown
        } else if self.full_bandwidth_bytes_per_second == 0
            || self.max_bandwidth_bytes_per_second >= self.growth_target() {
            let marked = TcpBbrState {
                full_bandwidth_bytes_per_second: self.max_bandwidth_bytes_per_second,
                full_bandwidth_rounds: 0,
                ..grown
            };
            marked
        } else {
            let rounds = if self.full_bandwidth_rounds == u8::MAX {
                u8::MAX
            } else {
                (self.full_bandwidth_rounds + 1) as u8
            };
            TcpBbrState {
                full_bandwidth_rounds: rounds,
                mode: if rounds >= TCP_BBR_FULL_BANDWIDTH_ROUNDS {
                    TcpBbrMode::Drain
                } else {
                    self.mode
                },
                ..grown
            }
        }
    }

    pub open spec fn drain_updated(self, bytes_in_flight: u32, now: Instant) -> Self {
        let capped = TcpBbrState {
            congestion_window: self.spec_target_congestion_window(TCP_BBR_CWND_GAIN_MILLI),
            ..self
        };
        if bytes_in_flight <= self.spec_target_congestion_window(1000) {
            TcpBbrState {
                mode: TcpBbrMode::ProbeBw,
                cycle_index: 0,
                cycle_stamp: Some(now),
                ..capped
            }
        } else {
            capped
        }
    }

    /// Whether a whole round trip has passed in the current gain phase.
    pub open spec fn cycle_phase_over(self, now: Instant) -> bool {
        match self.min_rtt {
            Some(min_rtt) => match self.cycle_stamp {
                Some(stamp) => now.spec_since(stamp).nanos >= min_rtt.nanos,
                None => true,
            },
            None => false,
        }
    }

    pub open spec fn probe_bw_updated(self, now: Instant) -> Self {
        let cycled = if self.cycle_phase_over(now) {
            TcpBbrState {
                cycle_index: ((self.cycle_index + 1) % (TCP_PROBE_BW_CYCLE_LEN as int)) as usize,
                cycle_stamp: Some(now),
                ..self
            }
        } else {
            self
        };
        TcpBbrState {
            congestion_window: vstd::math::max(
                vstd::math::max(
                    self.spec_target_congestion_window(TCP_BBR_CWND_GAIN_MILLI) as int,
                    self.congestion_window as int,
                ),
                spec_min_congestion_window(self.max_segment_size) as int,
            ) as u32,
            ..cycled
        }
    }

    pub open spec fn probe_rtt_updated(self, now: Instant, bytes_in_flight: u32) -> Self {
        let window = spec_min_congestion_window(self.max_segment_size);
        let starts = bytes_in_flight <= window && self.probe_rtt_done_stamp is None;
        let done_stamp = if starts {
            Some(Instant { nanos: (now.nanos + TCP_BBR_PROBE_RTT_NANOS) as u128 })
        } else {
            self.probe_rtt_done_stamp
        };
        let round_done = self.round_start || (self.probe_rtt_round_done && !starts);
        if round_done && (done_stamp matches Some(done) && now.nanos >= done.nanos) {
            let mode = if self.prior_mode == TcpBbrMode::ProbeRtt {
                TcpBbrMode::ProbeBw
            } else {
                self.prior_mode
            };
            TcpBbrState {
                mode,
                cycle_index: if mode == TcpBbrMode::ProbeBw {
                    0
                } else {
                    self.cycle_index
                },
                cycle_stamp: if mode == TcpBbrMode::ProbeBw {
                    Some(now)
                } else {
                    self.cycle_stamp
                },
                probe_rtt_done_stamp: None,
                probe_rtt_round_done: false,
                congestion_window: self.spec_target_congestion_window(TCP_BBR_CWND_GAIN_MILLI),
                ..self
            }
        } else {
            TcpBbrState {
                probe_rtt_done_stamp: done_stamp,
                probe_rtt_round_done: round_done,
                congestion_window: window,
                ..self
            }
        }
    }

    /// The pacing gain of the current mode, in thousandths.
    pub open spec fn pacing_gain(self) -> u32 {
        match self.mode {
            TcpBbrMode::Startup => TCP_BBR_HIGH_GAIN_MILLI,
            TcpBbrMode::Drain => TCP_BBR_DRAIN_GAIN_MILLI,
            TcpBbrMode::ProbeBw => spec_probe_bw_gain(self.cycle_index),
            TcpBbrMode::ProbeRtt => 1000,
        }
    }

    /// The pacing rate follows the bandwidth estimate and never stalls at zero.
    pub open spec fn paced(self) -> Self {
        if self.max_bandwidth_bytes_per_second == 0 {
            self
        } else {
            let rate = (self.max_bandwidth_bytes_per_second * self.pacing_gain()) / 1000;
            TcpBbrState {
                pacing_rate_bytes_per_second: Some(
                    arith::saturate_u64(vstd::math::max(rate, 1)),
                ),
                ..self
            }
        }
    }

    pub open spec fn mode_step(self, sample: TcpCongestionAckSample) -> Self {
        match self.mode {
            TcpBbrMode::Startup => self.startup_updated(sample.bytes_acked),
            TcpBbrMode::Drain => self.drain_updated(sample.bytes_in_flight, sample.now),
            TcpBbrMode::ProbeBw => self.probe_bw_updated(sample.now),
            TcpBbrMode::ProbeRtt => self.probe_rtt_updated(sample.now, sample.bytes_in_flight),
        }
    }

    pub fn new(max_segment_size: u32) -> (r: TcpBbrState)
        ensures
            r == TcpBbrState::initial(max_segment_size),
            r.well_formed(),
    {
        let max_segment_size = max_u32(max_segment_size, 1);
        TcpBbrState {
            algorithm: TcpCongestionAlgorithm::Bbr,
            max_segment_size,
            mode: TcpBbrMode::Startup,
            congestion_window: initial_congestion_window(max_segment_size),
            pacing_rate_bytes_per_second: None,
            max_bandwidth_bytes_per_second: 0,
            min_rtt: None,
            min_rtt_stamp: None,
            delivered: 0,
            next_round_delivered: 0,
            round_end_marker_active: false,
            round_start: false,
            full_bandwidth_bytes_per_second: 0,
            full_bandwidth_rounds: 0,
            cycle_index: 0,
            cycle_stamp: None,
            probe_rtt_done_stamp: None,
            probe_rtt_round_done: false,
            prior_mode: TcpBbrMode::Startup,
        }
    }

    pub fn max_segment_size(&self) -> (r: u32)
        ensures
            r == self.max_segment_size,
    {
        self.max_segment_size
    }

    pub fn mode(&self) -> (r: TcpBbrMode)
        ensures
            r == self.mode,
    {
        self.mode
    }

    fn rtt_filter_expired(&self, now: Instant) -> (r: bool)
        ensures
            r == self.min_rtt_expired(now),
    {
        match self.min_rtt_stamp {
            Some(stamp) => now.saturating_duration_since(stamp).nanos
                > TCP_BBR_MIN_RTT_FILTER_NANOS,
            None => false,
        }
    }

    fn update_min_rtt(&mut self, sample: TcpCongestionAckSample)
        requires
            old(self).well_formed(),
        ensures
            final(self).well_formed(),
            *final(self) == old(self).min_rtt_updated(sample.rtt, sample.now),
    {
        let expired = self.rtt_filter_expired(sample.now);
        let improved = match self.min_rtt {
            Some(min_rtt) => sample.rtt.nanos <= min_rtt.nanos,
            None => true,
        };
        if improved || expired {
            self.min_rtt = Some(sample.rtt);
            self.min_rtt_stamp = Some(sample.now);
        }
    }

    fn update_bandwidth(&mut self, sample: TcpCongestionAckSample)
        requires
            old(self).well_formed(),
        ensures
            final(self).well_formed(),
            *final(self) == old(self).bandwidth_updated(sample.bytes_acked, sample.rtt),
    {
        let measured: u128 = sample.rtt.as_micros();
        let micros: u128 = if measured > 1 {
            measured
        } else {
            1
        };
        let sample_rate: u64 = narrow_u64((sample.bytes_acked as u128 * 1_000_000) / micros);
        self.max_bandwidth_bytes_per_second =
        max_u64(self.max_bandwidth_bytes_per_second, sample_rate);
    }

    fn maybe_enter_probe_rtt(&mut self, now: Instant)
        requires
            old(self).well_formed(),
        ensures
            final(self).well_formed(),
            *final(self) == old(self).probe_rtt_entered(now),
    {
        if self.mode == TcpBbrMode::ProbeRtt || !self.rtt_filter_expired(now) {
            return;
        }
        self.prior_mode = self.mode;
        self.mode = TcpBbrMode::ProbeRtt;
        self.probe_rtt_done_stamp = None;
        self.probe_rtt_round_done = false;
        self.congestion_window = probe_rtt_window(self.max_segment_size);
    }

    fn update_startup(&mut self, sample: TcpCongestionAckSample)
        requires
            old(self).well_formed(),
        ensures
            final(self).well_formed(),
            *final(self) == old(self).startup_updated(sample.bytes_acked),
    {
        self.congestion_window =
        max_u32(
            self.congestion_window.saturating_add(sample.bytes_acked),
            min_congestion_window(self.max_segment_size),
        );
        if !self.round_start {
            return;
        }
        if self.full_bandwidth_bytes_per_second == 0 {
            self.full_bandwidth_bytes_per_second = self.max_bandwidth_bytes_per_second;
            self.full_bandwidth_rounds = 0;
            return;
        }
        let growth_target: u64 = self.full_bandwidth_bytes_per_second.saturating_add(
            max_u64(self.full_bandwidth_bytes_per_second / 4, 1),
        );
        if self.max_bandwidth_bytes_per_second >= growth_target {
            self.full_bandwidth_bytes_per_second = self.max_bandwidth_bytes_per_second;
            self.full_bandwidth_rounds = 0;
        } else {
            self.full_bandwidth_rounds = self.full_bandwidth_rounds.saturating_add(1);
        }
        if self.full_bandwidth_rounds >= TCP_BBR_FULL_BANDWIDTH_ROUNDS {
            self.mode = TcpBbrMode::Drain;
        }
    }

    fn update_drain(&mut self, sample: TcpCongestionAckSample)
        requires
            old(self).well_formed(),
        ensures
            final(self).well_formed(),
            *final(self) == old(self).drain_updated(sample.bytes_in_flight, sample.now),
    {
        self.congestion_window = self.target_congestion_window(TCP_BBR_CWND_GAIN_MILLI);
        if sample.bytes_in_flight <= self.target_congestion_window(1000) {
            self.mode = TcpBbrMode::ProbeBw;
            self.cycle_index = 0;
            self.cycle_stamp = Some(sample.now);
        }
    }

    fn update_probe_bw(&mut self, sample: TcpCongestionAckSample)
        requires
            old(self).well_formed(),
        ensures
            final(self).well_formed(),
            *final(self) == old(self).probe_bw_updated(sample.now),
    {
        if self.should_advance_probe_bw_cycle(sample.now) {
            self.cycle_index = (self.cycle_index + 1) % TCP_PROBE_BW_CYCLE_LEN;
            self.cycle_stamp = Some(sample.now);
        }
        let target: u32 = self.target_congestion_window(TCP_BBR_CWND_GAIN_MILLI);
        self.congestion_window =
        max_u32(
            max_u32(target, self.congestion_window),
            min_congestion_window(self.max_segment_size),
        );
    }

    fn update_probe_rtt(&mut self, sample: TcpCongestionAckSample)
        requires
            old(self).well_formed(),
            sample.now.nanos + TCP_BBR_PROBE_RTT_NANOS <= u128::MAX,
        ensures
            final(self).well_formed(),
            *final(self) == old(self).probe_rtt_updated(sample.now, sample.bytes_in_flight),
    {
        let window: u32 = probe_rtt_window(self.max_segment_size);
        self.congestion_window = window;
        if sample.bytes_in_flight <= window && self.probe_rtt_done_stamp.is_none() {
            self.probe_rtt_done_stamp =
            Some(sample.now.plus(Duration { nanos: TCP_BBR_PROBE_RTT_NANOS }));
            self.probe_rtt_round_done = false;
        }
        if self.round_start {
            self.probe_rtt_round_done = true;
        }
        let finished = match self.probe_rtt_done_stamp {
            Some(done) => sample.now.nanos >= done.nanos && self.probe_rtt_round_done,
            None => false,
        };
        if finished {
            self.mode =
            match self.prior_mode {
                TcpBbrMode::ProbeRtt => TcpBbrMode::ProbeBw,
                prior_mode => prior_mode,
            };
            if self.mode == TcpBbrMode::ProbeBw {
                self.cycle_index = 0;
                self.cycle_stamp = Some(sample.now);
            }
            self.probe_rtt_done_stamp = None;
            self.probe_rtt_round_done = false;
            self.congestion_window = self.target_congestion_window(TCP_BBR_CWND_GAIN_MILLI);
        }
    }

    fn should_advance_probe_bw_cycle(&self, now: Instant) -> (r: bool)
        ensures
            r == self.cycle_phase_over(now),
    {
        match self.min_rtt {
            Some(min_rtt) => match self.cycle_stamp {
                Some(stamp) => now.saturating_duration_since(stamp).nanos >= min_rtt.nanos,
                None => true,
            },
            None => false,
        }
    }

    /// The window that a gain aims for.
    pub fn target_congestion_window(&self, gain_milli: u32) -> (r: u32)
        ensures
            r == self.spec_target_congestion_window(gain_milli),
    {
        let min_rtt = match self.min_rtt {
            Some(min_rtt) => min_rtt,
            None => {
                return initial_congestion_window(self.max_segment_size);
            },
        };
        if self.max_bandwidth_bytes_per_second == 0 {
            return initial_congestion_window(self.max_segment_size);
        }
        let product: u128 = saturating_mul_u128(
            saturating_mul_u128(
                self.max_bandwidth_bytes_per_second as u128,
                min_rtt.as_micros(),
            ),
            gain_milli as u128,
        );
        max_u32(
            narrow_u32(product / 1_000_000 / 1000),
            min_congestion_window(self.max_segment_size),
        )
    }

    fn update_pacing_rate(&mut self)
        requires
            old(self).well_formed(),
        ensures
            final(self).well_formed(),
            *final(self) == old(self).paced(),
    {
        if self.max_bandwidth_bytes_per_second == 0 {
            return;
        }
        let gain_milli: u32 = match self.mode {
            TcpBbrMode::Startup => TCP_BBR_HIGH_GAIN_MILLI,
            TcpBbrMode::Drain => TCP_BBR_DRAIN_GAIN_MILLI,
            TcpBbrMode::ProbeBw => probe_bw_gain(self.cycle_index),
            TcpBbrMode::ProbeRtt => 1000,
        };
        proof {
            assert(0 <= self.max_bandwidth_bytes_per_second * gain_milli <= u64::MAX * u32::MAX)
                by (nonlinear_arith)
                requires
                    0 <= self.max_bandwidth_bytes_per_second <= u64::MAX,
                    0 <= gain_milli <= u32::MAX,
            ;
        }
        let rate: u128 = self.max_bandwidth_bytes_per_second as u128 * gain_milli as u128 / 1000;
        self.pacing_rate_bytes_per_second =
        Some(
            narrow_u64(
                if rate >= 1 {
                    rate
                } else {
                    1
                },
            ),
        );
    }
}

impl TcpCongestionControl for TcpBbrState {
    open spec fn well_formed(&self) -> bool {
        &&& self.cycle_index < TCP_PROBE_BW_CYCLE_LEN
        &&& self.max_segment_size > 0
    }

    open spec fn spec_algorithm(&self) -> TcpCongestionAlgorithm {
        self.algorithm
    }

    open spec fn spec_congestion_window(&self) -> u32 {
        vstd::math::max(
            self.congestion_window as int,
            spec_min_congestion_window(self.max_segment_size) as int,
        ) as u32
    }

    open spec fn spec_pacing_rate(&self) -> Option<u64> {
        self.pacing_rate_bytes_per_second
    }

    open spec fn spec_delivered(&self) -> u64 {
        self.delivered
    }

    open spec fn spec_min_rtt(&self) -> Option<Duration> {
        self.min_rtt
    }

    open spec fn spec_max_bandwidth(&self) -> u64 {
        self.max_bandwidth_bytes_per_second
    }

    /// The whole nanoseconds that `pending_bytes` take at the pacing rate, and at
    /// least one.
    open spec fn spec_next_send_delay(&self, pending_bytes: u32) -> Option<Duration> {
        match self.pacing_rate_bytes_per_second {
            Some(rate) if rate != 0 && pending_bytes != 0 => Some(
                Duration {
                    nanos: vstd::math::max(
                        (pending_bytes * 1_000_000_000) / (rate as int),
                        1,
                    ) as u128,
                },
            ),
            _ => None,
        }
    }

    open spec fn after_packet_sent(self, bytes_sent: u32, bytes_in_flight: u32) -> Self {
        if bytes_sent != 0 && (bytes_in_flight == 0 || self.round_start) {
            TcpBbrState {
                next_round_delivered: arith::saturate_u64(
                    self.delivered + bytes_in_flight + bytes_sent,
                ),
                round_end_marker_active: true,
                round_start: false,
                ..self
            }
        } else {
            self
        }
    }

    open spec fn after_ack(self, sample: TcpCongestionAckSample) -> Self {
        if sample.bytes_acked == 0 {
            self
        } else {
            self.delivery_counted(sample.bytes_acked).probe_rtt_entered(
                sample.now,
            ).min_rtt_updated(sample.rtt, sample.now).bandwidth_updated(
                sample.bytes_acked,
                sample.rtt,
            ).mode_step(sample).paced()
        }
    }

    /// A loss takes half of the lost bytes off the window, down to the minimum.
    open spec fn after_loss(self, bytes_lost: u32) -> Self {
        if bytes_lost == 0 {
            self
        } else {
            TcpBbrState {
                congestion_window: vstd::math::max(
                    self.congestion_window - bytes_lost / 2,
                    spec_min_congestion_window(self.max_segment_size) as int,
                ) as u32,
                ..self
            }
        }
    }

    fn algorithm(&self) -> (r: TcpCongestionAlgorithm) {
        self.algorithm
    }

    fn congestion_window(&self) -> (r: u32) {
        max_u32(self.congestion_window, min_congestion_window(self.max_segment_size))
    }

    fn pacing_rate_bytes_per_second(&self) -> (r: Option<u64>) {
        self.pacing_rate_bytes_per_second
    }

    fn delivered(&self) -> (r: u64) {
        self.delivered
    }

    fn min_rtt(&self) -> (r: Option<Duration>) {
        self.min_rtt
    }

    fn max_bandwidth_bytes_per_second(&self) -> (r: u64) {
        self.max_bandwidth_bytes_per_second
    }

    fn on_packet_sent(&mut self, bytes_sent: u32, bytes_in_flight: u32) {
        if bytes_sent == 0 {
            return;
        }
        if bytes_in_flight == 0 || self.round_start {
            self.next_round_delivered =
            self.delivered.saturating_add(bytes_in_flight as u64).saturating_add(
                bytes_sent as u64,
            );
            self.round_end_marker_active = true;
            self.round_start = false;
        }
    }

    fn on_ack(&mut self, sample: TcpCongestionAckSample) {
        if sample.bytes_acked == 0 {
            return;
        }
        let prior_delivered: u64 = self.delivered;
        self.delivered = self.delivered.saturating_add(sample.bytes_acked as u64);
        self.round_start = self.round_end_marker_active && prior_delivered
            < self.next_round_delivered && self.delivered >= self.next_round_delivered;
        if self.round_start {
            self.round_end_marker_active = false;
        }
        assert(*self == old(self).delivery_counted(sample.bytes_acked));
        self.maybe_enter_probe_rtt(sample.now);
        self.update_min_rtt(sample);
        self.update_bandwidth(sample);
        match self.mode {
            TcpBbrMode::Startup => self.update_startup(sample),
            TcpBbrMode::Drain => self.update_drain(sample),
            TcpBbrMode::ProbeBw => self.update_probe_bw(sample),
            TcpBbrMode::ProbeRtt => self.update_probe_rtt(sample),
        }
        self.update_pacing_rate();
    }

    fn on_loss(&mut self, bytes_lost: u32) {
        if bytes_lost == 0 {
            return;
        }
        let reduced: u32 = self.congestion_window.saturating_sub(bytes_lost / 2);
        self.congestion_window = max_u32(reduced, min_congestion_window(self.max_segment_size));
    }

    fn next_send_delay(&self, pending_bytes: u32) -> (r: Option<Duration>) {
        let rate = match self.pacing_rate_bytes_per_second {
            Some(rate) => rate,
            None => {
                return None;
            },
        };
        if rate == 0 || pending_bytes == 0 {
            return None;
        }
        let nanos: u128 = (pending_bytes as u128 * 1_000_000_000) / rate as u128;
        Some(
            Duration {
                nanos: if nanos >= 1 {
                    nanos
                } else {
                    1
                },
            },
        )
    }
}

impl Default for TcpBbrState {
    fn default() -> (r: TcpBbrState)
        ensures
            r == TcpBbrState::initial(DEFAULT_TCP_CONGESTION_MAX_SEGMENT_SIZE),
            r.well_formed(),
    {
        TcpBbrState::new(DEFAULT_TCP_CONGESTION_MAX_SEGMENT_SIZE)
    }
}

/// The algorithm that a connection runs, with its state.
#[derive(Clone, Copy, Debug, PartialEq, Eq, Structural)]
pub enum TcpCongestionStateKind {
    Bbr(TcpBbrState),
}

/// The congestion control state of one connection.
#[derive(Clone, Copy, Debug, PartialEq, Eq, Structural)]
pub struct TcpCongestionState {
    pub inner: TcpCongestionStateKind,
}

impl TcpCongestionState {
    pub open spec fn bbr(self) -> TcpBbrState {
        match self.inner {
            TcpCongestionStateKind::Bbr(state) => state,
        }
    }

    pub open spec fn of(state: TcpBbrState) -> TcpCongestionState {
        TcpCongestionState { inner: TcpCongestionStateKind::Bbr(state) }
    }

    pub fn new(max_segment_size: u32) -> (r: TcpCongestionState)
        ensures
            r == TcpCongestionState::of(TcpBbrState::initial(max_segment_size)),
            r.well_formed(),
    {
        TcpCongestionState {
            inner: TcpCongestionStateKind::Bbr(TcpBbrState::new(max_segment_size)),
        }
    }

    pub fn with_default_max_segment_size() -> (r: TcpCongestionState)
        ensures
            r == TcpCongestionState::of(
                TcpBbrState::initial(DEFAULT_TCP_OUTPUT_PAYLOAD_LEN as u32),
            ),
            r.well_formed(),
    {
        TcpCongestionState::new(DEFAULT_TCP_CONGESTION_MAX_SEGMENT_SIZE)
    }

    pub fn max_segment_size(&self) -> (r: u32)
        ensures
            r == self.bbr().max_segment_size,
    {
        match &self.inner {
            TcpCongestionStateKind::Bbr(state) => state.max_segment_size(),
        }
    }

    pub fn algorithm(&self) -> (r: TcpCongestionAlgorithm)
        requires
            self.well_formed(),
        ensures
            r == self.spec_algorithm(),
    {
        match &self.inner {
            TcpCongestionStateKind::Bbr(state) => state.algorithm(),
        }
    }

    pub fn congestion_window(&self) -> (r: u32)
        requires
            self.well_formed(),
        ensures
            r == self.spec_congestion_window(),
    {
        match &self.inner {
            TcpCongestionStateKind::Bbr(state) => state.congestion_window(),
        }
    }

    pub fn pacing_rate_bytes_per_second(&self) -> (r: Option<u64>)
        requires
            self.well_formed(),
        ensures
            r == self.spec_pacing_rate(),
    {
        match &self.inner {
            TcpCongestionStateKind::Bbr(state) => state.pacing_rate_bytes_per_second(),
        }
    }

    pub fn delivered(&self) -> (r: u64)
        requires
            self.well_formed(),
        ensures
            r == self.spec_delivered(),
    {
        match &self.inner {
            TcpCongestionStateKind::Bbr(state) => state.delivered(),
        }
    }

    pub fn min_rtt(&self) -> (r: Option<Duration>)
        requires
            self.well_formed(),
        ensures
            r == self.spec_min_rtt(),
    {
        match &self.inner {
            TcpCongestionStateKind::Bbr(state) => state.min_rtt(),
        }
    }

    pub fn max_bandwidth_bytes_per_second(&self) -> (r: u64)
        requires
            self.well_formed(),
        ensures
            r == self.spec_max_bandwidth(),
    {
        match &self.inner {
            TcpCongestionStateKind::Bbr(state) => state.max_bandwidth_bytes_per_second(),
        }
    }

    pub fn on_packet_sent(&mut self, bytes_sent: u32, bytes_in_flight: u32)
        requires
            old(self).well_formed(),
        ensures
            final(self).well_formed(),
            *final(self) == old(self).after_packet_sent(bytes_sent, bytes_in_flight),
    {
        match &mut self.inner {
            TcpCongestionStateKind::Bbr(state) => state.on_packet_sent(
                bytes_sent,
                bytes_in_flight,
            ),
        }
    }

    pub fn on_ack(&mut self, sample: TcpCongestionAckSample)
        requires
            old(self).well_formed(),
            sample.now.nanos + TCP_BBR_PROBE_RTT_NANOS <= u128::MAX,
        ensures
            final(self).well_formed(),
            *final(self) == old(self).after_ack(sample),
    {
        match &mut self.inner {
            TcpCongestionStateKind::Bbr(state) => state.on_ack(sample),
        }
    }

    pub fn on_loss(&mut self, bytes_lost: u32)
        requires
            old(self).well_formed(),
        ensures
            final(self).well_formed(),
            *final(self) == old(self).after_loss(bytes_lost),
    {
        match &mut self.inner {
            TcpCongestionStateKind::Bbr(state) => state.on_loss(bytes_lost),
        }
    }

    pub fn next_send_delay(&self, pending_bytes: u32) -> (r: Option<Duration>)
        requires
            self.well_formed(),
        ensures
            r == self.spec_next_send_delay(pending_bytes),
    {
        match &self.inner {
            TcpCongestionStateKind::Bbr(state) => state.next_send_delay(pending_bytes),
        }
    }
}

impl TcpCongestionControl for TcpCongestionState {
    open spec fn well_formed(&self) -> bool {
        self.bbr().well_formed()
    }

    open spec fn spec_algorithm(&self) -> TcpCongestionAlgorithm {
        self.bbr().spec_algorithm()
    }

    open spec fn spec_congestion_window(&self) -> u32 {
        self.bbr().spec_congestion_window()
    }

    open spec fn spec_pacing_rate(&self) -> Option<u64> {
        self.bbr().spec_pacing_rate()
    }

    open spec fn spec_delivered(&self) -> u64 {
        self.bbr().spec_delivered()
    }

    open spec fn spec_min_rtt(&self) -> Option<Duration> {
        self.bbr().spec_min_rtt()
    }

    open spec fn spec_max_bandwidth(&self) -> u64 {
        self.bbr().spec_max_bandwidth()
    }

    open spec fn spec_next_send_delay(&self, pending_bytes: u32) -> Option<Duration> {
        self.bbr().spec_next_send_delay(pending_bytes)
    }

    open spec fn after_packet_sent(self, bytes_sent: u32, bytes_in_flight: u32) -> Self {
        TcpCongestionState::of(self.bbr().after_packet_sent(bytes_sent, bytes_in_flight))
    }

    open spec fn after_ack(self, sample: TcpCongestionAckSample) -> Self {
        TcpCongestionState::of(self.bbr().after_ack(sample))
    }

    open spec fn after_loss(self, bytes_lost: u32) -> Self {
        TcpCongestionState::of(self.bbr().after_loss(bytes_lost))
    }

    fn algorithm(&self) -> (r: TcpCongestionAlgorithm) {
        TcpCongestionState::algorithm(self)
    }

    fn congestion_window(&self) -> (r: u32) {
        TcpCongestionState::congestion_window(self)
    }

    fn pacing_rate_bytes_per_second(&self) -> (r: Option<u64>) {
        TcpCongestionState::pacing_rate_bytes_per_second(self)
    }

    fn delivered(&self) -> (r: u64) {
        TcpCongestionState::delivered(self)
    }

    fn min_rtt(&self) -> (r: Option<Duration>) {
        TcpCongestionState::min_rtt(self)
    }

    fn max_bandwidth_bytes_per_second(&self) -> (r: u64) {
        TcpCongestionState::max_bandwidth_bytes_per_second(self)
    }

    fn on_packet_sent(&mut self, bytes_sent: u32, bytes_in_flight: u32) {
        TcpCongestionState::on_packet_sent(self, bytes_sent, bytes_in_flight)
    }

    fn on_ack(&mut self, sample: TcpCongestionAckSample) {
        TcpCongestionState::on_ack(self, sample)
    }

    fn on_loss(&mut self, bytes_lost: u32) {
        TcpCongestionState::on_loss(self, bytes_lost)
    }

    fn next_send_delay(&self, pending_bytes: u32) -> (r: Option<Duration>) {
        TcpCongestionState::next_send_delay(self, pending_bytes)
    }
}

impl Default for TcpCongestionState {
    fn default() -> (r: TcpCongestionState)
        ensures
            r == TcpCongestionState::of(
                TcpBbrState::initial(DEFAULT_TCP_CONGESTION_MAX_SEGMENT_SIZE),
            ),
            r.well_formed(),
    {
        TcpCongestionState::with_default_max_segment_size()
    }
}

/// The window in force never lies below its minimum, and a loss never raises it.
pub proof fn tcp_bbr_loss_bounds(state: TcpBbrState, bytes_lost: u32)
    requires
        state.well_formed(),
    ensures
        state.spec_congestion_window() >= spec_min_congestion_window(state.max_segment_size),
        state.after_loss(bytes_lost).spec_congestion_window() <= state.spec_congestion_window(),
        state.after_loss(bytes_lost).spec_congestion_window() >= spec_min_congestion_window(
            state.max_segment_size,
        ),
{
}

/// Any positive bandwidth keeps the pacing rate positive after an acknowledgment,
/// however small the gain.
pub proof fn tcp_bbr_pacing_positive(state: TcpBbrState, sample: TcpCongestionAckSample)
    requires
        state.well_formed(),
        sample.bytes_acked != 0,
        state.max_bandwidth_bytes_per_second != 0 || delivery_rate(sample.bytes_acked, sample.rtt)
            != 0,
    ensures
        state.after_ack(sample).pacing_rate_bytes_per_second matches Some(rate) && rate >= 1,
{
}

/// A round ends only where a send set its mark: without one, no number of
/// acknowledgments moves the controller out of Startup.
pub proof fn tcp_bbr_rounds_need_marks(state: TcpBbrState, sample: TcpCongestionAckSample)
    requires
        state.well_formed(),
        !state.round_end_marker_active,
        state.mode == TcpBbrMode::Startup,
        !state.min_rtt_expired(sample.now),
        sample.bytes_acked != 0,
    ensures
        state.after_ack(sample).mode == TcpBbrMode::Startup,
        !state.after_ack(sample).round_end_marker_active,
{
}

/// The target window grows with the gain and never lies below four segments. It is
/// ten segments while either estimate is missing; else it is the gain's thousandths
/// of what the bandwidth delivers in the shortest round trip, within the window's
/// bounds, as long as the product can be held.
pub proof fn tcp_bbr_target_window(
    state: TcpBbrState,
    low_gain: u32,
    high_gain: u32,
)
    requires
        state.well_formed(),
        low_gain <= high_gain,
    ensures
        ({
            let least = vstd::math::min(4 * state.max_segment_size, u32::MAX as int);
            let initial = vstd::math::min(10 * state.max_segment_size, u32::MAX as int);
            let low = state.spec_target_congestion_window(low_gain);
            let high = state.spec_target_congestion_window(high_gain);
            &&& least <= low <= high
            &&& match state.min_rtt {
                Some(min_rtt) if state.max_bandwidth_bytes_per_second != 0 => {
                    let product = state.max_bandwidth_bytes_per_second * (min_rtt.nanos / 1000)
                        * low_gain;
                    product <= u128::MAX ==> low == vstd::math::max(
                        vstd::math::min(product / 1_000_000_000, u32::MAX as int),
                        least,
                    )
                },
                _ => low == initial,
            }
        }),
{
    if let Some(min_rtt) = state.min_rtt {
        let bandwidth = state.max_bandwidth_bytes_per_second as int;
        let micros = (min_rtt.nanos / 1000) as int;
        assert(0 <= bandwidth * micros) by (nonlinear_arith)
            requires
                0 <= bandwidth,
                0 <= micros,
        ;
        let flow = bandwidth * micros;
        let held = arith::saturate_u128(flow) as int;
        assert(0 <= held * low_gain <= held * high_gain) by (nonlinear_arith)
            requires
                0 <= held,
                0 <= low_gain <= high_gain,
        ;
        if flow * low_gain <= u128::MAX {
            if low_gain == 0 {
                assert(flow * low_gain == 0 && held * low_gain == 0) by (nonlinear_arith)
                    requires
                        low_gain == 0,
                ;
            } else {
                assert(flow <= flow * low_gain) by (nonlinear_arith)
                    requires
                        0 <= flow,
                        1 <= low_gain,
                ;
            }
        }
    }
}

/// A call of the controller that measures with more than ProbeRtt's window in
/// flight, or that measures nothing.
pub open spec fn tcp_bbr_crowded_call(before: TcpBbrState, after: TcpBbrState) -> bool {
    ||| exists|sample: TcpCongestionAckSample|
        {
            &&& after == #[trigger] before.after_ack(sample)
            &&& sample.bytes_acked == 0 || sample.bytes_in_flight > spec_min_congestion_window(
                before.max_segment_size,
            )
        }
    ||| exists|bytes_sent: u32, bytes_in_flight: u32|
        after == #[trigger] before.after_packet_sent(bytes_sent, bytes_in_flight)
    ||| exists|bytes_lost: u32| after == #[trigger] before.after_loss(bytes_lost)
}

proof fn lemma_tcp_bbr_crowded_call(before: TcpBbrState, after: TcpBbrState)
    requires
        tcp_bbr_crowded_call(before, after),
        before.mode == TcpBbrMode::ProbeRtt ==> before.probe_rtt_done_stamp is None
            && before.congestion_window == spec_min_congestion_window(before.max_segment_size),
    ensures
        before.mode == TcpBbrMode::ProbeRtt ==> after.mode == TcpBbrMode::ProbeRtt,
        after.mode == TcpBbrMode::ProbeRtt ==> after.probe_rtt_done_stamp is None
            && after.congestion_window == spec_min_congestion_window(after.max_segment_size),
{
    if exists|sample: TcpCongestionAckSample|
        {
            &&& after == #[trigger] before.after_ack(sample)
            &&& sample.bytes_acked == 0 || sample.bytes_in_flight > spec_min_congestion_window(
                before.max_segment_size,
            )
        } {
        let sample = choose|sample: TcpCongestionAckSample|
            {
                &&& after == #[trigger] before.after_ack(sample)
                &&& sample.bytes_acked == 0 || sample.bytes_in_flight > spec_min_congestion_window(
                    before.max_segment_size,
                )
            };
        if sample.bytes_acked != 0 {
            let entered = before.delivery_counted(sample.bytes_acked).probe_rtt_entered(sample.now);
            let measured = entered.min_rtt_updated(sample.rtt, sample.now).bandwidth_updated(
                sample.bytes_acked,
                sample.rtt,
            );
            assert(measured.mode == entered.mode);
            assert(measured.probe_rtt_done_stamp == entered.probe_rtt_done_stamp);
            if measured.mode == TcpBbrMode::ProbeRtt {
                let stepped = measured.probe_rtt_updated(sample.now, sample.bytes_in_flight);
                assert(stepped.mode == TcpBbrMode::ProbeRtt);
                assert(after == stepped.paced());
            }
        }
    }
}

/// ProbeRtt lasts, with its window in force, from the acknowledgment that enters
/// it and through any calls, however much time passes and however many rounds end,
/// as long as every acknowledgment finds more than that window in flight.
pub proof fn tcp_bbr_crowded_probe_rtt_lasts(states: Seq<TcpBbrState>, last: int)
    requires
        0 < last < states.len(),
        states[0].mode != TcpBbrMode::ProbeRtt,
        states[1].mode == TcpBbrMode::ProbeRtt,
        forall|i: int|
            0 <= i < last ==> tcp_bbr_crowded_call(#[trigger] states[i], states[i + 1]),
    ensures
        states[last].mode == TcpBbrMode::ProbeRtt,
        states[last].probe_rtt_done_stamp is None,
        states[last].congestion_window == spec_min_congestion_window(
            states[last].max_segment_size,
        ),
        states[last].spec_congestion_window() == states[last].congestion_window,
    decreases last,
{
    if last > 1 {
        tcp_bbr_crowded_probe_rtt_lasts(states, last - 1);
    }
    lemma_tcp_bbr_crowded_call(states[last - 1], states[last - 1 + 1]);
}

/// The controller after a run of acknowledgments, with nothing sent or lost in
/// between.
pub open spec fn after_acks(
    state: TcpCongestionState,
    samples: Seq<TcpCongestionAckSample>,
) -> TcpCongestionState
    decreases samples.len(),
{
    if samples.len() == 0 {
        state
    } else {
        after_acks(state, samples.drop_last()).after_ack(samples.last())
    }
}

pub open spec fn total_acked(samples: Seq<TcpCongestionAckSample>) -> int
    decreases samples.len(),
{
    if samples.len() == 0 {
        0
    } else {
        total_acked(samples.drop_last()) + samples.last().bytes_acked
    }
}

/// The acknowledgments all acknowledge something, come in the order of their
/// times, and lie within the life of a round-trip sample.
pub open spec fn within_one_filter(samples: Seq<TcpCongestionAckSample>) -> bool {
    &&& forall|i: int| 0 <= i < samples.len() ==> (#[trigger] samples[i]).bytes_acked > 0
    &&& forall|i: int, j: int|
        0 <= i <= j < samples.len() ==> (#[trigger] samples[i]).now.nanos <= (
        #[trigger] samples[j]).now.nanos
    &&& samples.len() > 0 ==> samples.last().now.nanos - samples[0].now.nanos
        <= TCP_BBR_MIN_RTT_FILTER_NANOS
}

proof fn lemma_rate_bounded(bytes_acked: u32, rtt: Duration)
    ensures
        delivery_rate(bytes_acked, rtt) <= u32::MAX * 1_000_000,
{
    let micros = vstd::math::max((rtt.nanos / 1000) as int, 1);
    let bytes = bytes_acked * 1_000_000;
    assert(0 <= bytes / micros <= bytes) by (nonlinear_arith)
        requires
            0 <= bytes,
            1 <= micros,
    ;
}

/// What holds of a new controller after such a run.
spec fn starting_up(
    state: TcpBbrState,
    max_segment_size: u32,
    samples: Seq<TcpCongestionAckSample>,
) -> bool {
    &&& state.mode == TcpBbrMode::Startup
    &&& state.max_segment_size == vstd::math::max(max_segment_size as int, 1)
    &&& !state.round_end_marker_active
    &&& !state.round_start
    &&& state.congestion_window == vstd::math::min(
        10 * vstd::math::max(max_segment_size as int, 1) + total_acked(samples),
        u32::MAX as int,
    )
    &&& state.max_bandwidth_bytes_per_second <= u32::MAX * 1_000_000
    &&& state.max_bandwidth_bytes_per_second > 0 ==> state.pacing_rate_bytes_per_second == Some(
        vstd::math::max((state.max_bandwidth_bytes_per_second * 2885) / 1000, 1) as u64,
    )
    &&& samples.len() == 0 ==> state.min_rtt_stamp is None
    &&& samples.len() > 0 ==> (state.min_rtt_stamp matches Some(stamp) && samples[0].now.nanos
        <= stamp.nanos <= samples.last().now.nanos)
}

proof fn lemma_starting_up(max_segment_size: u32, samples: Seq<TcpCongestionAckSample>)
    requires
        within_one_filter(samples),
    ensures
        starting_up(
            after_acks(
                TcpCongestionState::of(TcpBbrState::initial(max_segment_size)),
                samples,
            ).bbr(),
            max_segment_size,
            samples,
        ),
        total_acked(samples) >= 0,
    decreases samples.len(),
{
    if samples.len() > 0 {
        let front = samples.drop_last();
        let last = samples.len() - 1;
        let sample = samples.last();
        assert(samples[last] == sample);
        assert forall|i: int| 0 <= i < front.len() implies front[i] == samples[i] by {}
        assert(samples[0].now.nanos <= samples[last].now.nanos);
        if front.len() > 0 {
            assert(front.last() == samples[last - 1]);
            assert(front[0] == samples[0]);
            assert(samples[last - 1].now.nanos <= samples[last].now.nanos);
        }
        assert(within_one_filter(front));
        lemma_starting_up(max_segment_size, front);
        lemma_rate_bounded(sample.bytes_acked, sample.rtt);
        let before = after_acks(
            TcpCongestionState::of(TcpBbrState::initial(max_segment_size)),
            front,
        ).bbr();
        assert(samples[last].bytes_acked > 0);
        let counted = before.delivery_counted(sample.bytes_acked);
        assert(!counted.min_rtt_expired(sample.now));
        assert(counted.probe_rtt_entered(sample.now) == counted);
        let measured = counted.min_rtt_updated(sample.rtt, sample.now).bandwidth_updated(
            sample.bytes_acked,
            sample.rtt,
        );
        let after = measured.startup_updated(sample.bytes_acked).paced();
        assert(before.after_ack(sample) == after);
        assert(after_acks(
            TcpCongestionState::of(TcpBbrState::initial(max_segment_size)),
            samples,
        ).bbr() == after);
        assert(total_acked(samples) == total_acked(front) + sample.bytes_acked);
        assert(after.congestion_window == vstd::math::min(
            10 * vstd::math::max(max_segment_size as int, 1) + total_acked(samples),
            u32::MAX as int,
        ));
        assert(after.max_bandwidth_bytes_per_second > 0 ==> after.pacing_rate_bytes_per_second
            == Some(
            vstd::math::max((after.max_bandwidth_bytes_per_second * 2885) / 1000, 1) as u64,
        ));
        assert(after.min_rtt_stamp matches Some(stamp) && samples[0].now.nanos
        <= stamp.nanos <= samples.last().now.nanos);
        assert(starting_up(after, max_segment_size, samples));
    }
}

/// A new controller that is told of nothing but acknowledgments, all within ten
/// seconds, stays in Startup: its window is the initial one and all that was
/// acknowledged, and it paces at 2885 thousandths of the bandwidth that it measured.
pub proof fn tcp_startup_run(max_segment_size: u32, samples: Seq<TcpCongestionAckSample>)
    requires
        within_one_filter(samples),
        samples.len() > 0,
    ensures
        ({
            let state = after_acks(
                TcpCongestionState::of(TcpBbrState::initial(max_segment_size)),
                samples,
            );
            let bandwidth = state.spec_max_bandwidth();
            &&& state.spec_congestion_window() == vstd::math::min(
                10 * vstd::math::max(max_segment_size as int, 1) + total_acked(samples),
                u32::MAX as int,
            )
            &&& bandwidth > 0 ==> state.spec_pacing_rate() == Some(
                vstd::math::max((bandwidth * 2885) / 1000, 1) as u64,
            )
            &&& (bandwidth * 2885) / 1000 <= u64::MAX
        }),
{
    lemma_starting_up(max_segment_size, samples);
}

/// The minimum round trip is kept for ten seconds, the tenth included: of two
/// acknowledgments the second gives it if its sample is not larger or comes later
/// than that, else the first.
pub proof fn tcp_min_rtt_lasts_ten_seconds(
    max_segment_size: u32,
    first: TcpCongestionAckSample,
    second: TcpCongestionAckSample,
)
    requires
        first.bytes_acked > 0,
        second.bytes_acked > 0,
        first.now.nanos <= second.now.nanos,
    ensures
        TcpCongestionState::of(TcpBbrState::initial(max_segment_size)).after_ack(first).after_ack(
            second,
        ).spec_min_rtt() == Some(
            if second.rtt.nanos <= first.rtt.nanos || second.now.nanos - first.now.nanos
                > 10_000_000_000 {
                second.rtt
            } else {
                first.rtt
            },
        ),
{
    let once = TcpBbrState::initial(max_segment_size).after_ack(first);
    assert(once.min_rtt == Some(first.rtt) && once.min_rtt_stamp == Some(first.now));
    assert(once.mode == TcpBbrMode::Startup);
}

} // verus!
