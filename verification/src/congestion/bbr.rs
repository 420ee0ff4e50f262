//! The BBR congestion controller.
//!
//! BBR models the path by two estimates, the largest delivery rate and the
//! smallest round-trip time seen lately, and paces sending around their
//! product. It starts fast, drains the queue that the start built up, then
//! cycles its pacing gain; every ten seconds it shrinks the window for a moment
//! to measure the round-trip time afresh.
use vstd::prelude::*;

use super::controller::CongestionController;
use super::types::{AckedPacket, CongestionMetrics, LostPacket, PacketNumber, RttSample};
use crate::arith;
use crate::arith::{
    div_ceil_u128, max_u32, max_u64, narrow_u32, narrow_u64, saturating_mul_u128,
    saturating_mul_u32,
};
use crate::time::{Duration, Instant};

verus! {

pub const DEFAULT_BBR_MAX_DATAGRAM_SIZE: u32 = 1_460;

pub const BBR_INITIAL_WINDOW_SEGMENTS: u32 = 10;

pub const BBR_MIN_WINDOW_SEGMENTS: u32 = 4;

pub const BBR_HIGH_GAIN_MILLI: u32 = 2885;

pub const BBR_DRAIN_GAIN_MILLI: u32 = 347;

pub const BBR_CWND_GAIN_MILLI: u32 = 2000;

/// How long a ProbeRtt episode lasts: 200 ms.
pub const BBR_PROBE_RTT_NANOS: u128 = 200_000_000;

/// How long a minimum round-trip time stays valid: 10 s.
pub const BBR_MIN_RTT_FILTER_NANOS: u128 = 10_000_000_000;

pub const BBR_FULL_BANDWIDTH_GAIN_MILLI: u32 = 1250;

/// Rounds without growth after which the pipe counts as full.
pub const BBR_FULL_BANDWIDTH_ROUNDS: u8 = 3;

/// Number of phases in the ProbeBw gain cycle.
pub const PROBE_BW_CYCLE_LEN: usize = 8;

#[derive(Clone, Copy, Debug, PartialEq, Eq, Structural)]
pub enum BbrMode {
    Startup,
    Drain,
    ProbeBw,
    ProbeRtt,
}

/// The state of one BBR controller.
#[derive(Clone, Copy, Debug, PartialEq, Eq, Structural)]
pub struct BbrController {
    pub max_datagram_size: u32,
    pub mode: BbrMode,
    pub congestion_window: u32,
    pub pacing_rate_bytes_per_second: Option<u64>,
    pub max_bandwidth_bytes_per_second: u64,
    pub min_rtt: Option<Duration>,
    pub min_rtt_stamp: Option<Instant>,
    pub delivered: u64,
    pub next_round_delivered: u64,
    pub round_end_marker_active: bool,
    pub round_start: bool,
    pub full_bandwidth_bytes_per_second: u64,
    pub full_bandwidth_rounds: u8,
    pub cycle_index: usize,
    pub cycle_stamp: Option<Instant>,
    pub probe_rtt_done_stamp: Option<Instant>,
    pub probe_rtt_round_done: bool,
    pub prior_mode: BbrMode,
}

/// What one acknowledgment tells the model.
#[derive(Clone, Copy, Debug, PartialEq, Eq, Structural)]
pub struct BbrAckSample {
    pub bytes_acked: u32,
    pub rtt: Duration,
    pub now: Instant,
}

/// The datagram size in use: the default stands in for zero.
pub open spec fn spec_normalized_max_datagram_size(max_datagram_size: u32) -> u32 {
    if max_datagram_size == 0 {
        DEFAULT_BBR_MAX_DATAGRAM_SIZE
    } else {
        max_datagram_size
    }
}

pub open spec fn spec_initial_congestion_window(max_datagram_size: u32) -> u32 {
    arith::saturate_u32(
        spec_normalized_max_datagram_size(max_datagram_size) * BBR_INITIAL_WINDOW_SEGMENTS,
    )
}

pub open spec fn spec_min_congestion_window(max_datagram_size: u32) -> u32 {
    arith::saturate_u32(spec_normalized_max_datagram_size(max_datagram_size) * BBR_MIN_WINDOW_SEGMENTS)
}

/// The pacing gain of one phase of the ProbeBw cycle: probe, drain, then cruise.
pub open spec fn spec_probe_bw_gain(cycle_index: usize) -> u32 {
    if cycle_index == 0 {
        1250
    } else if cycle_index == 1 {
        750
    } else {
        1000
    }
}

/// Bytes per second over one round trip of at least a microsecond.
pub open spec fn delivery_rate(bytes_acked: u32, rtt: Duration) -> u64 {
    arith::saturate_u64((bytes_acked * 1_000_000) / vstd::math::max((rtt.nanos / 1000) as int, 1))
}

pub fn normalized_max_datagram_size(max_datagram_size: u32) -> (r: u32)
    ensures
        r == spec_normalized_max_datagram_size(max_datagram_size),
        r > 0,
{
    if max_datagram_size == 0 {
        DEFAULT_BBR_MAX_DATAGRAM_SIZE
    } else {
        max_datagram_size
    }
}

pub fn initial_congestion_window(max_datagram_size: u32) -> (r: u32)
    ensures
        r == spec_initial_congestion_window(max_datagram_size),
{
    saturating_mul_u32(
        normalized_max_datagram_size(max_datagram_size),
        BBR_INITIAL_WINDOW_SEGMENTS,
    )
}

pub fn min_congestion_window(max_datagram_size: u32) -> (r: u32)
    ensures
        r == spec_min_congestion_window(max_datagram_size),
{
    saturating_mul_u32(normalized_max_datagram_size(max_datagram_size), BBR_MIN_WINDOW_SEGMENTS)
}

/// The window held during ProbeRtt.
pub fn probe_rtt_window(max_datagram_size: u32) -> (r: u32)
    ensures
        r == spec_min_congestion_window(max_datagram_size),
{
    min_congestion_window(max_datagram_size)
}

fn probe_bw_gain(cycle_index: usize) -> (r: u32)
    ensures
        r == spec_probe_bw_gain(cycle_index),
{
    if cycle_index == 0 {
        1250
    } else if cycle_index == 1 {
        750
    } else {
        1000
    }
}

impl BbrController {
    /// The window in force: never below the minimum.
    pub open spec fn window(self) -> u32 {
        vstd::math::max(
            self.congestion_window as int,
            spec_min_congestion_window(self.max_datagram_size) as int,
        ) as u32
    }

    /// `gain_milli` thousandths of the bandwidth-delay product, within the
    /// window's bounds; the initial window while either estimate is missing.
    pub open spec fn spec_target_congestion_window(self, gain_milli: u32) -> u32 {
        match self.min_rtt {
            Some(min_rtt) if self.max_bandwidth_bytes_per_second != 0 => {
                let product = arith::saturate_u128(
                    arith::saturate_u128(
                        self.max_bandwidth_bytes_per_second * (min_rtt.nanos / 1000),
                    ) * gain_milli,
                );
                vstd::math::max(
                    arith::saturate_u32((product as int / 1_000_000) / 1000) as int,
                    spec_min_congestion_window(self.max_datagram_size) as int,
                ) as u32
            },
            _ => spec_initial_congestion_window(self.max_datagram_size),
        }
    }

    /// `bytes` more were delivered; a round ends when the marker is crossed.
    pub open spec fn delivery_counted(self, bytes: u32) -> Self {
        let delivered = arith::saturate_u64(self.delivered + bytes);
        let round_start = self.round_end_marker_active && self.delivered
            < self.next_round_delivered && delivered >= self.next_round_delivered;
        BbrController {
            delivered,
            round_start,
            round_end_marker_active: self.round_end_marker_active && !round_start,
            ..self
        }
    }

    /// Whether the minimum round-trip time has outlived its filter.
    pub open spec fn min_rtt_expired(self, now: Instant) -> bool {
        self.min_rtt_stamp matches Some(stamp) && now.spec_since(stamp).nanos
            > BBR_MIN_RTT_FILTER_NANOS
    }

    pub open spec fn probe_rtt_entered(self, now: Instant) -> Self {
        if self.mode != BbrMode::ProbeRtt && self.min_rtt_expired(now) {
            BbrController {
                prior_mode: self.mode,
                mode: BbrMode::ProbeRtt,
                probe_rtt_done_stamp: None,
                probe_rtt_round_done: false,
                congestion_window: spec_min_congestion_window(self.max_datagram_size),
                ..self
            }
        } else {
            self
        }
    }

    pub open spec fn min_rtt_updated(self, rtt: Duration, now: Instant) -> Self {
        let improved = match self.min_rtt {
            Some(min_rtt) => rtt.nanos <= min_rtt.nanos,
            None => true,
        };
        if improved || self.min_rtt_expired(now) {
            BbrController { min_rtt: Some(rtt), min_rtt_stamp: Some(now), ..self }
        } else {
            self
        }
    }

    /// The estimate rises to the sample's rate. (A sample that the application
    /// held back never lowers it, and can only raise it.)
    pub open spec fn bandwidth_updated(self, bytes_acked: u32, rtt: Duration) -> Self {
        BbrController {
            max_bandwidth_bytes_per_second: vstd::math::max(
                self.max_bandwidth_bytes_per_second as int,
                delivery_rate(bytes_acked, rtt) as int,
            ) as u64,
            ..self
        }
    }

    /// The bandwidth that counts as growth over the last full-pipe mark.
    pub open spec fn growth_target(self) -> u64 {
        arith::saturate_u64(
            arith::ceiling_div(self.full_bandwidth_bytes_per_second * BBR_FULL_BANDWIDTH_GAIN_MILLI, 1000),
        )
    }

    pub open spec fn startup_updated(self, bytes_acked: u32, app_limited: bool) -> Self {
        let grown = BbrController {
            congestion_window: vstd::math::max(
                arith::saturate_u32(self.congestion_window + bytes_acked) as int,
                spec_min_congestion_window(self.max_datagram_size) as int,
            ) as u32,
            ..self
        };
        if !self.round_start || app_limited {
            grown
        } else if self.full_bandwidth_bytes_per_second == 0 {
            BbrController {
                full_bandwidth_bytes_per_second: self.max_bandwidth_bytes_per_second,
                full_bandwidth_rounds: 0,
                ..grown
            }
        } else if self.max_bandwidth_bytes_per_second >= self.growth_target() {
            BbrController {
                full_bandwidth_bytes_per_second: self.max_bandwidth_bytes_per_second,
                full_bandwidth_rounds: 0,
                ..grown
            }
        } else {
            let rounds = if self.full_bandwidth_rounds == u8::MAX {
                u8::MAX
            } else {
                (self.full_bandwidth_rounds + 1) as u8
            };
            BbrController {
                full_bandwidth_rounds: rounds,
                mode: if rounds >= BBR_FULL_BANDWIDTH_ROUNDS {
                    BbrMode::Drain
                } else {
                    self.mode
                },
                ..grown
            }
        }
    }

    /// `now` is the reading of the clock that the acknowledgment came with.
    pub open spec fn drain_updated(self, bytes_in_flight: u32, now: Instant) -> Self {
        let capped = BbrController {
            congestion_window: self.spec_target_congestion_window(BBR_CWND_GAIN_MILLI),
            ..self
        };
        if bytes_in_flight <= self.spec_target_congestion_window(1000) {
            BbrController {
                mode: BbrMode::ProbeBw,
                cycle_index: 0,
                cycle_stamp: Some(now),
                ..capped
            }
        } else {
            capped
        }
    }

    /// Whether a whole round trip has passed in the current gain phase.
    pub open spec fn cycle_phase_over(self, now: Instant) -> bool {
        match self.min_rtt {
            Some(min_rtt) => match self.cycle_stamp {
                Some(stamp) => now.spec_since(stamp).nanos >= min_rtt.nanos,
                None => true,
            },
            None => false,
        }
    }

    pub open spec fn probe_bw_updated(self, now: Instant) -> Self {
        let cycled = if self.cycle_phase_over(now) {
            BbrController {
                cycle_index: ((self.cycle_index + 1) % (PROBE_BW_CYCLE_LEN as int)) as usize,
                cycle_stamp: Some(now),
                ..self
            }
        } else {
            self
        };
        BbrController {
            congestion_window: vstd::math::max(
                vstd::math::max(
                    self.spec_target_congestion_window(BBR_CWND_GAIN_MILLI) as int,
                    self.congestion_window as int,
                ),
                spec_min_congestion_window(self.max_datagram_size) as int,
            ) as u32,
            ..cycled
        }
    }

    pub open spec fn probe_rtt_updated(self, now: Instant, bytes_in_flight: u32) -> Self {
        let window = spec_min_congestion_window(self.max_datagram_size);
        let starts = bytes_in_flight <= window && self.probe_rtt_done_stamp is None;
        let done_stamp = if starts {
            match now.spec_checked_add(Duration { nanos: BBR_PROBE_RTT_NANOS }) {
                Some(done) => Some(done),
                None => Some(now),
            }
        } else {
            self.probe_rtt_done_stamp
        };
        let round_done = self.round_start || (self.probe_rtt_round_done && !starts);
        if round_done && (done_stamp matches Some(done) && now.nanos >= done.nanos) {
            let mode = if self.prior_mode == BbrMode::ProbeRtt {
                BbrMode::ProbeBw
            } else {
                self.prior_mode
            };
            BbrController {
                mode,
                cycle_index: if mode == BbrMode::ProbeBw {
                    0
                } else {
                    self.cycle_index
                },
                cycle_stamp: if mode == BbrMode::ProbeBw {
                    Some(now)
                } else {
                    self.cycle_stamp
                },
                probe_rtt_done_stamp: None,
                probe_rtt_round_done: false,
                congestion_window: self.spec_target_congestion_window(BBR_CWND_GAIN_MILLI),
                ..self
            }
        } else {
            BbrController {
                probe_rtt_done_stamp: done_stamp,
                probe_rtt_round_done: round_done,
                congestion_window: window,
                ..self
            }
        }
    }

    /// The pacing gain of the current mode, in thousandths.
    pub open spec fn pacing_gain(self) -> u32 {
        match self.mode {
            BbrMode::Startup => BBR_HIGH_GAIN_MILLI,
            BbrMode::Drain => BBR_DRAIN_GAIN_MILLI,
            BbrMode::ProbeBw => spec_probe_bw_gain(self.cycle_index),
            BbrMode::ProbeRtt => 1000,
        }
    }

    /// The pacing rate follows the bandwidth estimate and never stalls at zero.
    pub open spec fn paced(self) -> Self {
        if self.max_bandwidth_bytes_per_second == 0 {
            self
        } else {
            let rate = (self.max_bandwidth_bytes_per_second * self.pacing_gain()) / 1000;
            BbrController {
                pacing_rate_bytes_per_second: Some(arith::saturate_u64(vstd::math::max(rate, 1))),
                ..self
            }
        }
    }

    /// The effect of the current mode on an acknowledgment that has been counted.
    pub open spec fn mode_step(
        self,
        sample: BbrAckSample,
        bytes_in_flight: u32,
        app_limited: bool,
    ) -> Self {
        match self.mode {
            BbrMode::Startup => self.startup_updated(sample.bytes_acked, app_limited),
            BbrMode::Drain => self.drain_updated(bytes_in_flight, sample.now),
            BbrMode::ProbeBw => self.probe_bw_updated(sample.now),
            BbrMode::ProbeRtt => self.probe_rtt_updated(sample.now, bytes_in_flight),
        }
    }

    /// One acknowledgment: count it, then let a measured round trip move the model.
    pub open spec fn ack_applied(
        self,
        sample: BbrAckSample,
        bytes_in_flight: u32,
        app_limited: bool,
    ) -> Self {
        if sample.bytes_acked == 0 {
            self
        } else {
            let counted = self.delivery_counted(sample.bytes_acked);
            if sample.rtt.nanos == 0 {
                counted
            } else {
                counted.probe_rtt_entered(sample.now).min_rtt_updated(
                    sample.rtt,
                    sample.now,
                ).bandwidth_updated(sample.bytes_acked, sample.rtt).mode_step(
                    sample,
                    bytes_in_flight,
                    app_limited,
                ).paced()
            }
        }
    }

    /// Whether what was in flight, with what was just acknowledged, left the
    /// window unfilled.
    pub open spec fn window_unfilled(self, bytes_acked: u32, bytes_in_flight: u32) -> bool {
        arith::saturate_u32(bytes_in_flight + bytes_acked) < self.window()
    }

    pub fn bbr_mode(&self) -> (r: BbrMode)
        ensures
            r == self.mode,
    {
        self.mode
    }

    fn ack_sample(&self, now: Instant, acked: AckedPacket, rtt: RttSample) -> (r: BbrAckSample)
        ensures
            r == (BbrAckSample { bytes_acked: acked.bytes, rtt: rtt.latest, now }),
    {
        BbrAckSample { bytes_acked: acked.bytes, rtt: rtt.latest, now }
    }

    fn apply_ack_sample(&mut self, sample: BbrAckSample, bytes_in_flight: u32, app_limited: bool)
        requires
            old(self).well_formed(),
        ensures
            *final(self) == old(self).ack_applied(sample, bytes_in_flight, app_limited),
            final(self).well_formed(),
    {
        if sample.bytes_acked == 0 {
            return;
        }
        let prior_delivered: u64 = self.delivered;
        self.delivered = self.delivered.saturating_add(sample.bytes_acked as u64);
        self.round_start = self.round_end_marker_active && prior_delivered
            < self.next_round_delivered && self.delivered >= self.next_round_delivered;
        if self.round_start {
            self.round_end_marker_active = false;
        }
        assert(*self == old(self).delivery_counted(sample.bytes_acked));
        if sample.rtt.is_zero() {
            return;
        }
        self.maybe_enter_probe_rtt(sample.now);
        self.update_min_rtt(sample);
        self.update_bandwidth(sample, app_limited);
        match self.mode {
            BbrMode::Startup => self.update_startup(sample, app_limited),
            BbrMode::Drain => self.update_drain(bytes_in_flight, sample.now),
            BbrMode::ProbeBw => self.update_probe_bw(sample),
            BbrMode::ProbeRtt => self.update_probe_rtt(sample, bytes_in_flight),
        }
        self.update_pacing_rate();
    }

    fn is_app_limited_sample(&self, bytes_acked: u32, bytes_in_flight: u32) -> (r: bool)
        requires
            self.well_formed(),
        ensures
            r == self.window_unfilled(bytes_acked, bytes_in_flight),
    {
        bytes_in_flight.saturating_add(bytes_acked) < self.congestion_window()
    }

    fn rtt_filter_expired(&self, now: Instant) -> (r: bool)
        ensures
            r == self.min_rtt_expired(now),
    {
        match self.min_rtt_stamp {
            Some(stamp) => now.saturating_duration_since(stamp).nanos > BBR_MIN_RTT_FILTER_NANOS,
            None => false,
        }
    }

    fn update_min_rtt(&mut self, sample: BbrAckSample)
        requires
            old(self).well_formed(),
        ensures
            *final(self) == old(self).min_rtt_updated(sample.rtt, sample.now),
            final(self).well_formed(),
    {
        let expired = self.rtt_filter_expired(sample.now);
        let improved = match self.min_rtt {
            Some(min_rtt) => sample.rtt.nanos <= min_rtt.nanos,
            None => true,
        };
        if improved || expired {
            self.min_rtt = Some(sample.rtt);
            self.min_rtt_stamp = Some(sample.now);
        }
    }

    fn update_bandwidth(&mut self, sample: BbrAckSample, app_limited: bool)
        requires
            old(self).well_formed(),
        ensures
            *final(self) == old(self).bandwidth_updated(sample.bytes_acked, sample.rtt),
            final(self).well_formed(),
    {
        let measured: u128 = sample.rtt.as_micros();
        let micros: u128 = if measured > 1 {
            measured
        } else {
            1
        };
        let sample_rate: u64 = narrow_u64((sample.bytes_acked as u128 * 1_000_000) / micros);
        if app_limited && self.max_bandwidth_bytes_per_second != 0 && sample_rate
            <= self.max_bandwidth_bytes_per_second {
            return;
        }
        self.max_bandwidth_bytes_per_second =
        max_u64(self.max_bandwidth_bytes_per_second, sample_rate);
    }

    fn maybe_enter_probe_rtt(&mut self, now: Instant)
        requires
            old(self).well_formed(),
        ensures
            *final(self) == old(self).probe_rtt_entered(now),
            final(self).well_formed(),
    {
        if self.mode == BbrMode::ProbeRtt || !self.rtt_filter_expired(now) {
            return;
        }
        self.prior_mode = self.mode;
        self.mode = BbrMode::ProbeRtt;
        self.probe_rtt_done_stamp = None;
        self.probe_rtt_round_done = false;
        self.congestion_window = probe_rtt_window(self.max_datagram_size);
    }

    fn update_startup(&mut self, sample: BbrAckSample, app_limited: bool)
        requires
            old(self).well_formed(),
        ensures
            *final(self) == old(self).startup_updated(sample.bytes_acked, app_limited),
            final(self).well_formed(),
    {
        self.congestion_window =
        max_u32(
            self.congestion_window.saturating_add(sample.bytes_acked),
            min_congestion_window(self.max_datagram_size),
        );
        if !self.round_start || app_limited {
            return;
        }
        if self.full_bandwidth_bytes_per_second == 0 {
            self.full_bandwidth_bytes_per_second = self.max_bandwidth_bytes_per_second;
            self.full_bandwidth_rounds = 0;
            return;
        }
        let growth_target: u64 = narrow_u64(
            (self.full_bandwidth_bytes_per_second as u128 * BBR_FULL_BANDWIDTH_GAIN_MILLI as u128
                + 999) / 1000,
        );
        if self.max_bandwidth_bytes_per_second >= growth_target {
            self.full_bandwidth_bytes_per_second = self.max_bandwidth_bytes_per_second;
            self.full_bandwidth_rounds = 0;
        } else {
            self.full_bandwidth_rounds = self.full_bandwidth_rounds.saturating_add(1);
        }
        if self.full_bandwidth_rounds >= BBR_FULL_BANDWIDTH_ROUNDS {
            self.mode = BbrMode::Drain;
        }
    }

    fn update_drain(&mut self, bytes_in_flight: u32, now: Instant)
        requires
            old(self).well_formed(),
        ensures
            *final(self) == old(self).drain_updated(bytes_in_flight, now),
            final(self).well_formed(),
    {
        self.congestion_window = self.target_congestion_window(BBR_CWND_GAIN_MILLI);
        if bytes_in_flight <= self.target_congestion_window(1000) {
            self.mode = BbrMode::ProbeBw;
            self.cycle_index = 0;
            self.cycle_stamp = Some(now);
        }
    }

    fn update_probe_bw(&mut self, sample: BbrAckSample)
        requires
            old(self).well_formed(),
        ensures
            *final(self) == old(self).probe_bw_updated(sample.now),
            final(self).well_formed(),
    {
        if self.should_advance_probe_bw_cycle(sample.now) {
            self.cycle_index = (self.cycle_index + 1) % PROBE_BW_CYCLE_LEN;
            self.cycle_stamp = Some(sample.now);
        }
        let target: u32 = self.target_congestion_window(BBR_CWND_GAIN_MILLI);
        self.congestion_window =
        max_u32(
            max_u32(target, self.congestion_window),
            min_congestion_window(self.max_datagram_size),
        );
    }

    /// What an acknowledgment makes of ProbeRtt.
    pub fn update_probe_rtt(&mut self, sample: BbrAckSample, bytes_in_flight: u32)
        requires
            old(self).well_formed(),
        ensures
            *final(self) == old(self).probe_rtt_updated(sample.now, bytes_in_flight),
            final(self).well_formed(),
    {
        let window: u32 = probe_rtt_window(self.max_datagram_size);
        self.congestion_window = window;
        if bytes_in_flight <= window && self.probe_rtt_done_stamp.is_none() {
            self.probe_rtt_done_stamp =
            match sample.now.checked_add(Duration { nanos: BBR_PROBE_RTT_NANOS }) {
                Some(done) => Some(done),
                None => Some(sample.now),
            };
            self.probe_rtt_round_done = false;
        }
        if self.round_start {
            self.probe_rtt_round_done = true;
        }
        let finished = match self.probe_rtt_done_stamp {
            Some(done) => sample.now.nanos >= done.nanos && self.probe_rtt_round_done,
            None => false,
        };
        if finished {
            self.mode =
            match self.prior_mode {
                BbrMode::ProbeRtt => BbrMode::ProbeBw,
                prior_mode => prior_mode,
            };
            if self.mode == BbrMode::ProbeBw {
                self.cycle_index = 0;
                self.cycle_stamp = Some(sample.now);
            }
            self.probe_rtt_done_stamp = None;
            self.probe_rtt_round_done = false;
            self.congestion_window = self.target_congestion_window(BBR_CWND_GAIN_MILLI);
        }
    }

    fn should_advance_probe_bw_cycle(&self, now: Instant) -> (r: bool)
        ensures
            r == self.cycle_phase_over(now),
    {
        match self.min_rtt {
            Some(min_rtt) => match self.cycle_stamp {
                Some(stamp) => now.saturating_duration_since(stamp).nanos >= min_rtt.nanos,
                None => true,
            },
            None => false,
        }
    }

    /// The window that a gain aims for.
    pub fn target_congestion_window(&self, gain_milli: u32) -> (r: u32)
        ensures
            r == self.spec_target_congestion_window(gain_milli),
    {
        let min_rtt = match self.min_rtt {
            Some(min_rtt) => min_rtt,
            None => {
                return initial_congestion_window(self.max_datagram_size);
            },
        };
        if self.max_bandwidth_bytes_per_second == 0 {
            return initial_congestion_window(self.max_datagram_size);
        }
        let product: u128 = saturating_mul_u128(
            saturating_mul_u128(
                self.max_bandwidth_bytes_per_second as u128,
                min_rtt.as_micros(),
            ),
            gain_milli as u128,
        );
        max_u32(
            narrow_u32(product / 1_000_000 / 1000),
            min_congestion_window(self.max_datagram_size),
        )
    }

    fn update_pacing_rate(&mut self)
        requires
            old(self).well_formed(),
        ensures
            *final(self) == old(self).paced(),
            final(self).well_formed(),
    {
        if self.max_bandwidth_bytes_per_second == 0 {
            return;
        }
        let gain_milli: u32 = match self.mode {
            BbrMode::Startup => BBR_HIGH_GAIN_MILLI,
            BbrMode::Drain => BBR_DRAIN_GAIN_MILLI,
            BbrMode::ProbeBw => probe_bw_gain(self.cycle_index),
            BbrMode::ProbeRtt => 1000,
        };
        proof {
            assert(self.max_bandwidth_bytes_per_second * gain_milli <= u64::MAX * u32::MAX)
                by (nonlinear_arith)
                requires
                    0 <= self.max_bandwidth_bytes_per_second <= u64::MAX,
                    0 <= gain_milli <= u32::MAX,
            ;
            assert(0 <= self.max_bandwidth_bytes_per_second * gain_milli) by (nonlinear_arith)
                requires
                    0 <= self.max_bandwidth_bytes_per_second,
                    0 <= gain_milli,
            ;
        }
        let rate: u128 = self.max_bandwidth_bytes_per_second as u128 * gain_milli as u128 / 1000;
        self.pacing_rate_bytes_per_second =
        Some(
            narrow_u64(
                if rate >= 1 {
                    rate
                } else {
                    1
                },
            ),
        );
    }
}

impl CongestionController for BbrController {
    open spec fn well_formed(&self) -> bool {
        &&& self.cycle_index < PROBE_BW_CYCLE_LEN
        &&& self.max_datagram_size > 0
    }

    open spec fn initial(max_datagram_size: u32) -> Self {
        BbrController {
            max_datagram_size: spec_normalized_max_datagram_size(max_datagram_size),
            mode: BbrMode::Startup,
            congestion_window: spec_initial_congestion_window(max_datagram_size),
            pacing_rate_bytes_per_second: None,
            max_bandwidth_bytes_per_second: 0,
            min_rtt: None,
            min_rtt_stamp: None,
            delivered: 0,
            next_round_delivered: 0,
            round_end_marker_active: false,
            round_start: false,
            full_bandwidth_bytes_per_second: 0,
            full_bandwidth_rounds: 0,
            cycle_index: 0,
            cycle_stamp: None,
            probe_rtt_done_stamp: None,
            probe_rtt_round_done: false,
            prior_mode: BbrMode::Startup,
        }
    }

    open spec fn spec_metrics(&self) -> CongestionMetrics {
        CongestionMetrics {
            congestion_window: self.window(),
            pacing_rate_bytes_per_second: self.pacing_rate_bytes_per_second,
            delivered: self.delivered,
            max_bandwidth_bytes_per_second: self.max_bandwidth_bytes_per_second,
            min_rtt: self.min_rtt,
        }
    }

    open spec fn spec_max_datagram_size(&self) -> u32 {
        self.max_datagram_size
    }

    /// The time that `pending_bytes` take at the pacing rate, rounded up.
    open spec fn spec_next_send_delay(&self, pending_bytes: u32) -> Option<Duration> {
        match self.pacing_rate_bytes_per_second {
            Some(rate) if rate != 0 && pending_bytes != 0 => Some(
                Duration {
                    nanos: arith::saturate_u64(
                        arith::ceiling_div(pending_bytes * 1_000_000_000, rate as int),
                    ) as u128,
                },
            ),
            _ => None,
        }
    }

    /// A send with nothing in flight, or at the start of a round, sets the mark
    /// whose delivery ends the round.
    open spec fn after_packet_sent(
        self,
        packet_number: PacketNumber,
        bytes_sent: u32,
        bytes_in_flight: u32,
        now: Instant,
    ) -> Self {
        if bytes_sent != 0 && (bytes_in_flight == 0 || self.round_start) {
            BbrController {
                next_round_delivered: arith::saturate_u64(self.delivered + bytes_in_flight + bytes_sent),
                round_end_marker_active: true,
                round_start: false,
                ..self
            }
        } else {
            self
        }
    }

    open spec fn after_ack(
        self,
        now: Instant,
        acked: AckedPacket,
        rtt: RttSample,
        bytes_in_flight: u32,
    ) -> Self {
        self.ack_applied(
            BbrAckSample { bytes_acked: acked.bytes, rtt: rtt.latest, now },
            bytes_in_flight,
            acked.app_limited || self.window_unfilled(acked.bytes, bytes_in_flight),
        )
    }

    open spec fn after_end_acks(
        self,
        now: Instant,
        bytes_in_flight: u32,
        app_limited: bool,
        largest_acked_packet: PacketNumber,
    ) -> Self {
        self
    }

    /// A loss takes at least one datagram off the window, down to the minimum.
    open spec fn after_loss(
        self,
        now: Instant,
        lost: LostPacket,
        persistent_congestion: bool,
    ) -> Self {
        if lost.bytes == 0 {
            self
        } else {
            BbrController {
                congestion_window: vstd::math::max(
                    self.congestion_window - vstd::math::max(lost.bytes as int, self.max_datagram_size as int),
                    spec_min_congestion_window(self.max_datagram_size) as int,
                ) as u32,
                ..self
            }
        }
    }

    open spec fn after_mtu_update(self, max_datagram_size: u32) -> Self {
        BbrController {
            max_datagram_size: spec_normalized_max_datagram_size(max_datagram_size),
            congestion_window: vstd::math::max(
                self.congestion_window as int,
                spec_min_congestion_window(max_datagram_size) as int,
            ) as u32,
            ..self
        }
    }

    fn new(max_datagram_size: u32) -> (r: Self) {
        let max_datagram_size = normalized_max_datagram_size(max_datagram_size);
        BbrController {
            max_datagram_size,
            mode: BbrMode::Startup,
            congestion_window: initial_congestion_window(max_datagram_size),
            pacing_rate_bytes_per_second: None,
            max_bandwidth_bytes_per_second: 0,
            min_rtt: None,
            min_rtt_stamp: None,
            delivered: 0,
            next_round_delivered: 0,
            round_end_marker_active: false,
            round_start: false,
            full_bandwidth_bytes_per_second: 0,
            full_bandwidth_rounds: 0,
            cycle_index: 0,
            cycle_stamp: None,
            probe_rtt_done_stamp: None,
            probe_rtt_round_done: false,
            prior_mode: BbrMode::Startup,
        }
    }

    fn metrics(&self) -> (r: CongestionMetrics) {
        CongestionMetrics {
            congestion_window: self.congestion_window(),
            pacing_rate_bytes_per_second: self.pacing_rate_bytes_per_second,
            delivered: self.delivered,
            max_bandwidth_bytes_per_second: self.max_bandwidth_bytes_per_second,
            min_rtt: self.min_rtt,
        }
    }

    fn max_datagram_size(&self) -> (r: u32) {
        self.max_datagram_size
    }

    fn congestion_window(&self) -> (r: u32) {
        max_u32(self.congestion_window, min_congestion_window(self.max_datagram_size))
    }

    fn pacing_rate_bytes_per_second(&self) -> (r: Option<u64>) {
        self.pacing_rate_bytes_per_second
    }

    fn delivered(&self) -> (r: u64) {
        self.delivered
    }

    fn min_rtt(&self) -> (r: Option<Duration>) {
        self.min_rtt
    }

    fn max_bandwidth_bytes_per_second(&self) -> (r: u64) {
        self.max_bandwidth_bytes_per_second
    }

    fn on_packet_sent(
        &mut self,
        packet_number: PacketNumber,
        bytes_sent: u32,
        bytes_in_flight: u32,
        now: Instant,
    ) {
        if bytes_sent == 0 {
            return;
        }
        if bytes_in_flight == 0 || self.round_start {
            self.next_round_delivered =
            self.delivered.saturating_add(bytes_in_flight as u64).saturating_add(
                bytes_sent as u64,
            );
            self.round_end_marker_active = true;
            self.round_start = false;
        }
    }

    fn on_ack(&mut self, now: Instant, acked: AckedPacket, rtt: RttSample, bytes_in_flight: u32) {
        let app_limited = acked.app_limited || self.is_app_limited_sample(
            acked.bytes,
            bytes_in_flight,
        );
        let sample = self.ack_sample(now, acked, rtt);
        self.apply_ack_sample(sample, bytes_in_flight, app_limited);
    }

    fn on_end_acks(
        &mut self,
        now: Instant,
        bytes_in_flight: u32,
        app_limited: bool,
        largest_acked_packet: PacketNumber,
    ) {
    }

    fn on_loss(&mut self, now: Instant, lost: LostPacket, persistent_congestion: bool) {
        if lost.bytes == 0 {
            return;
        }
        let reduction: u32 = max_u32(lost.bytes, self.max_datagram_size);
        let reduced: u32 = self.congestion_window.saturating_sub(reduction);
        self.congestion_window = max_u32(reduced, min_congestion_window(self.max_datagram_size));
    }

    fn on_mtu_update(&mut self, max_datagram_size: u32) {
        let max_datagram_size = normalized_max_datagram_size(max_datagram_size);
        self.max_datagram_size = max_datagram_size;
        self.congestion_window =
        max_u32(self.congestion_window, min_congestion_window(max_datagram_size));
    }

    fn next_send_delay(&self, pending_bytes: u32) -> (r: Option<Duration>) {
        let rate = match self.pacing_rate_bytes_per_second {
            Some(rate) => rate,
            None => {
                return None;
            },
        };
        if rate == 0 || pending_bytes == 0 {
            return None;
        }
        let nanos: u128 = div_ceil_u128(pending_bytes as u128 * 1_000_000_000, rate as u128);
        proof {
            assert(arith::ceiling_div(pending_bytes * 1_000_000_000, rate as int) >= 1)
                by (nonlinear_arith)
                requires
                    pending_bytes >= 1,
                    rate >= 1,
            ;
        }
        Some(
            Duration::from_nanos(
                narrow_u64(
                    if nanos >= 1 {
                        nanos
                    } else {
                        1
                    },
                ),
            ),
        )
    }
}

impl Default for BbrController {
    fn default() -> (r: Self)
        ensures
            r == BbrController::initial(DEFAULT_BBR_MAX_DATAGRAM_SIZE),
            r.well_formed(),
    {
        BbrController::new(DEFAULT_BBR_MAX_DATAGRAM_SIZE)
    }
}

/// The window in force is never below the minimum for the current datagram size,
/// and a loss never raises it.
pub proof fn bbr_window_floor(
    controller: BbrController,
    now: Instant,
    lost: LostPacket,
    persistent: bool,
)
    requires
        controller.well_formed(),
    ensures
        controller.window() >= spec_min_congestion_window(controller.max_datagram_size),
        controller.after_loss(now, lost, persistent).window() <= controller.window(),
        controller.after_loss(now, lost, persistent).window() >= spec_min_congestion_window(
            controller.max_datagram_size,
        ),
{
}

/// The bandwidth estimate never falls on an acknowledgment.
pub proof fn bbr_bandwidth_monotone(
    controller: BbrController,
    now: Instant,
    acked: AckedPacket,
    rtt: RttSample,
    bytes_in_flight: u32,
)
    requires
        controller.well_formed(),
    ensures
        controller.after_ack(now, acked, rtt, bytes_in_flight).max_bandwidth_bytes_per_second
            >= controller.max_bandwidth_bytes_per_second,
        controller.after_ack(now, acked, rtt, bytes_in_flight).delivered == arith::saturate_u64(
            controller.delivered + acked.bytes,
        ),
{
}

/// Once any bandwidth has been measured, every further measured acknowledgment
/// leaves a positive pacing rate, so a pending send always has a finite delay.
pub proof fn bbr_pacing_positive(
    controller: BbrController,
    now: Instant,
    acked: AckedPacket,
    rtt: RttSample,
    bytes_in_flight: u32,
)
    requires
        controller.well_formed(),
        acked.bytes != 0,
        rtt.latest.nanos != 0,
        controller.max_bandwidth_bytes_per_second != 0 || delivery_rate(acked.bytes, rtt.latest)
            != 0,
    ensures
        controller.after_ack(
            now,
            acked,
            rtt,
            bytes_in_flight,
        ).pacing_rate_bytes_per_second matches Some(rate) && rate >= 1,
{
}

/// The target window grows with the gain and never lies below four datagrams. It is
/// ten datagrams while either estimate is missing; else it is the gain's thousandths
/// of what the bandwidth delivers in the shortest round trip, within the window's
/// bounds, as long as the product can be held.
pub proof fn bbr_target_window(
    controller: BbrController,
    low_gain: u32,
    high_gain: u32,
)
    requires
        controller.well_formed(),
        low_gain <= high_gain,
    ensures
        ({
            let least = vstd::math::min(4 * controller.max_datagram_size, u32::MAX as int);
            let initial = vstd::math::min(10 * controller.max_datagram_size, u32::MAX as int);
            let low = controller.spec_target_congestion_window(low_gain);
            let high = controller.spec_target_congestion_window(high_gain);
            &&& least <= low <= high
            &&& match controller.min_rtt {
                Some(min_rtt) if controller.max_bandwidth_bytes_per_second != 0 => {
                    let product = controller.max_bandwidth_bytes_per_second * (min_rtt.nanos / 1000)
                        * low_gain;
                    product <= u128::MAX ==> low == vstd::math::max(
                        vstd::math::min(product / 1_000_000_000, u32::MAX as int),
                        least,
                    )
                },
                _ => low == initial,
            }
        }),
{
    if let Some(min_rtt) = controller.min_rtt {
        let bandwidth = controller.max_bandwidth_bytes_per_second as int;
        let micros = (min_rtt.nanos / 1000) as int;
        assert(0 <= bandwidth * micros) by (nonlinear_arith)
            requires
                0 <= bandwidth,
                0 <= micros,
        ;
        let flow = bandwidth * micros;
        let held = arith::saturate_u128(flow) as int;
        assert(0 <= held * low_gain <= held * high_gain) by (nonlinear_arith)
            requires
                0 <= held,
                0 <= low_gain <= high_gain,
        ;
        if flow * low_gain <= u128::MAX {
            if low_gain == 0 {
                assert(flow * low_gain == 0 && held * low_gain == 0) by (nonlinear_arith)
                    requires
                        low_gain == 0,
                ;
            } else {
                assert(flow <= flow * low_gain) by (nonlinear_arith)
                    requires
                        0 <= flow,
                        1 <= low_gain,
                ;
            }
        }
    }
}

/// A measured acknowledgment at which more than ProbeRtt's window is in flight.
pub open spec fn crowded_ack(before: BbrController, after: BbrController) -> bool {
    exists|now: Instant, acked: AckedPacket, rtt: RttSample, bytes_in_flight: u32|
        {
            &&& after == #[trigger] before.after_ack(now, acked, rtt, bytes_in_flight)
            &&& acked.bytes != 0
            &&& rtt.latest.nanos != 0
            &&& bytes_in_flight > spec_min_congestion_window(before.max_datagram_size)
        }
}

/// A call of the controller that measures nothing: an acknowledgment without bytes
/// or without a round trip, a send, the end of a run of acknowledgments, a loss or
/// a new datagram size.
pub open spec fn unmeasured_call(before: BbrController, after: BbrController) -> bool {
    ||| exists|now: Instant, acked: AckedPacket, rtt: RttSample, bytes_in_flight: u32|
        {
            &&& after == #[trigger] before.after_ack(now, acked, rtt, bytes_in_flight)
            &&& acked.bytes == 0 || rtt.latest.nanos == 0
        }
    ||| exists|packet_number: PacketNumber, bytes_sent: u32, bytes_in_flight: u32, now: Instant|
        after == #[trigger] before.after_packet_sent(packet_number, bytes_sent, bytes_in_flight, now)
    ||| exists|now: Instant, bytes_in_flight: u32, app_limited: bool, largest: PacketNumber|
        after == #[trigger] before.after_end_acks(now, bytes_in_flight, app_limited, largest)
    ||| exists|now: Instant, lost: LostPacket, persistent: bool|
        after == #[trigger] before.after_loss(now, lost, persistent)
    ||| exists|max_datagram_size: u32| after == #[trigger] before.after_mtu_update(max_datagram_size)
}

/// While more than ProbeRtt's window is in flight and its end is unset, an update
/// keeps ProbeRtt with its window in force and its end unset, whenever it comes and
/// whether or not a round ended.
pub proof fn crowded_update_keeps_probe_rtt(
    controller: BbrController,
    now: Instant,
    bytes_in_flight: u32,
)
    requires
        controller.well_formed(),
        controller.mode == BbrMode::ProbeRtt,
        controller.probe_rtt_done_stamp is None,
        bytes_in_flight > vstd::math::min(4 * controller.max_datagram_size, u32::MAX as int),
    ensures
        ({
            let after = controller.probe_rtt_updated(now, bytes_in_flight);
            &&& after.mode == BbrMode::ProbeRtt
            &&& after.probe_rtt_done_stamp is None
            &&& after.max_datagram_size == controller.max_datagram_size
            &&& after.window() == vstd::math::min(
                4 * controller.max_datagram_size,
                u32::MAX as int,
            )
        }),
{
}

/// One such acknowledgment in ProbeRtt leaves ProbeRtt's window in force and the
/// end of ProbeRtt unset, also where it is the one that enters ProbeRtt.
proof fn lemma_crowded_ack(before: BbrController, after: BbrController)
    requires
        crowded_ack(before, after),
        before.mode == BbrMode::ProbeRtt ==> before.probe_rtt_done_stamp is None,
    ensures
        before.mode == BbrMode::ProbeRtt ==> after.mode == BbrMode::ProbeRtt,
        after.mode == BbrMode::ProbeRtt ==> after.probe_rtt_done_stamp is None && after.window()
            == spec_min_congestion_window(after.max_datagram_size),
{
    let (now, acked, rtt, bytes_in_flight) = choose|
        now: Instant,
        acked: AckedPacket,
        rtt: RttSample,
        bytes_in_flight: u32,
    |
        {
            &&& after == #[trigger] before.after_ack(now, acked, rtt, bytes_in_flight)
            &&& acked.bytes != 0
            &&& rtt.latest.nanos != 0
            &&& bytes_in_flight > spec_min_congestion_window(before.max_datagram_size)
        };
    let counted = before.delivery_counted(acked.bytes);
    let entered = counted.probe_rtt_entered(now);
    let measured = entered.min_rtt_updated(rtt.latest, now).bandwidth_updated(
        acked.bytes,
        rtt.latest,
    );
    assert(measured.mode == entered.mode);
    assert(measured.probe_rtt_done_stamp == entered.probe_rtt_done_stamp);
    if measured.mode == BbrMode::ProbeRtt {
        let stepped = measured.probe_rtt_updated(now, bytes_in_flight);
        assert(stepped.mode == BbrMode::ProbeRtt);
        assert(after == stepped.paced());
    }
}

/// A call that measures nothing neither enters ProbeRtt nor touches it.
proof fn lemma_unmeasured_call(before: BbrController, after: BbrController)
    requires
        unmeasured_call(before, after),
    ensures
        after.mode == before.mode,
        after.probe_rtt_done_stamp == before.probe_rtt_done_stamp,
{
}

/// ProbeRtt does not begin to run out while more than its window stays in flight:
/// from the acknowledgment that enters it on, through any calls, however much time
/// passes and however many rounds end, as long as every measured acknowledgment
/// finds more than that in flight. Each of them leaves ProbeRtt's window in force.
pub proof fn crowded_probe_rtt_lasts(states: Seq<BbrController>, last: int)
    requires
        0 < last < states.len(),
        states[0].mode != BbrMode::ProbeRtt,
        states[1].mode == BbrMode::ProbeRtt,
        forall|i: int|
            0 <= i < last ==> crowded_ack(#[trigger] states[i], states[i + 1]) || unmeasured_call(
                states[i],
                states[i + 1],
            ),
    ensures
        states[last].mode == BbrMode::ProbeRtt,
        states[last].probe_rtt_done_stamp is None,
        crowded_ack(states[last - 1], states[last]) ==> states[last].window()
            == spec_min_congestion_window(states[last].max_datagram_size),
    decreases last,
{
    if last > 1 {
        crowded_probe_rtt_lasts(states, last - 1);
    }
    let before = states[last - 1];
    let after = states[last - 1 + 1];
    if crowded_ack(before, after) {
        lemma_crowded_ack(before, after);
    } else {
        lemma_unmeasured_call(before, after);
    }
}

} // verus!
