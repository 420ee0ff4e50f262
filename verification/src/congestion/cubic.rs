//! The window of the Cubic algorithm.
//!
//! Cubic follows a curve of real numbers. What is kept and decided in whole
//! numbers is here: when the window follows the curve, how fast it moves there,
//! and how it is paced. The points of the curve are handed in by whoever
//! computes with them.
use vstd::prelude::*;

use super::bbr;
use super::types::{AckedPacket, CongestionMetrics, LostPacket, RttSample};
use crate::arith;
use crate::arith::{div_ceil_u128, max_u32, max_u64, narrow_u64, saturating_mul_u32};
use crate::time::{Duration, Instant};

verus! {

pub const DEFAULT_CUBIC_MAX_DATAGRAM_SIZE: u32 = 1_460;

/// The datagrams that a new window holds.
pub const CUBIC_INITIAL_WINDOW_SEGMENTS: u32 = 10;

/// The datagrams that every window holds.
pub const CUBIC_MINIMUM_WINDOW_SEGMENTS: u32 = 2;

/// What an acknowledgment asks for.
#[derive(Clone, Copy, Debug, PartialEq, Eq, Structural)]
pub enum CubicStep {
    /// The window is what it is to be.
    Settled,
    /// The window is to move toward the curve. The curve starts anew where
    /// `epoch_started` says so. Its point is the one `since_epoch` and one
    /// `min_rtt` after its start.
    FollowCurve { epoch_started: bool, since_epoch: Duration, min_rtt: Duration },
}

/// The window of the Cubic algorithm.
#[derive(Clone, Copy, Debug, PartialEq, Eq, Structural)]
pub struct CubicWindow {
    pub max_datagram_size: u32,
    pub congestion_window: u32,
    pub slow_start_threshold: u32,
    pub epoch_start: Option<Instant>,
    pub acknowledged_bytes: u32,
    pub delivered: u64,
    pub min_rtt: Option<Duration>,
    pub max_bandwidth_bytes_per_second: u64,
    pub pacing_rate_bytes_per_second: Option<u64>,
}

/// The rate at which `window` bytes go out in one `rtt`, in bytes a second.
pub open spec fn rate_of_window(window: u32, rtt: Duration) -> u64 {
    let micros = vstd::math::max(rtt.nanos as int / 1_000, 1);
    vstd::math::max(window * 1_000_000 / micros, 1) as u64
}

impl CubicWindow {
    /// Datagrams have at least one byte.
    pub open spec fn well_formed(self) -> bool {
        0 < self.max_datagram_size
    }

    /// The window for a path that carries datagrams of `max_datagram_size`.
    pub open spec fn initial(max_datagram_size: u32) -> Self {
        let size = vstd::math::max(max_datagram_size as int, 1);
        CubicWindow {
            max_datagram_size: size as u32,
            congestion_window: arith::saturate_u32(size * CUBIC_INITIAL_WINDOW_SEGMENTS),
            slow_start_threshold: u32::MAX,
            epoch_start: None,
            acknowledged_bytes: 0,
            delivered: 0,
            min_rtt: None,
            max_bandwidth_bytes_per_second: 0,
            pacing_rate_bytes_per_second: None,
        }
    }

    pub open spec fn spec_minimum_window(self) -> u32 {
        arith::saturate_u32(self.max_datagram_size * CUBIC_MINIMUM_WINDOW_SEGMENTS)
    }

    /// The window that is reported: never less than the minimum.
    pub open spec fn window(self) -> u32 {
        vstd::math::max(self.congestion_window as int, self.spec_minimum_window() as int) as u32
    }

    /// The window paced over the shortest round trip.
    pub open spec fn paced(self) -> Self {
        CubicWindow {
            pacing_rate_bytes_per_second: match self.min_rtt {
                Some(rtt) => Some(rate_of_window(self.congestion_window, rtt)),
                None => None,
            },
            ..self
        }
    }

    /// What was delivered, and what its round trip tells.
    pub open spec fn measured(self, bytes: u32, latest: Duration) -> Self {
        let counted = CubicWindow {
            delivered: arith::saturate_u64(self.delivered + bytes),
            ..self
        };
        if latest.nanos == 0 {
            counted
        } else {
            CubicWindow {
                min_rtt: match self.min_rtt {
                    Some(rtt) if rtt.nanos <= latest.nanos => Some(rtt),
                    _ => Some(latest),
                },
                max_bandwidth_bytes_per_second: vstd::math::max(
                    self.max_bandwidth_bytes_per_second as int,
                    bbr::delivery_rate(bytes, latest) as int,
                ) as u64,
                ..counted
            }
        }
    }

    /// The window has not met its threshold.
    pub open spec fn in_slow_start(self) -> bool {
        self.congestion_window < self.slow_start_threshold
    }

    /// The window in slow start after an acknowledgment.
    pub open spec fn widened(self, bytes: u32) -> Self {
        (CubicWindow {
            congestion_window: arith::saturate_u32(self.congestion_window + bytes),
            ..self
        }).paced()
    }

    /// The window on its curve, before it moves there.
    pub open spec fn on_curve(self, bytes: u32, now: Instant) -> Self {
        CubicWindow {
            epoch_start: match self.epoch_start {
                Some(start) => Some(start),
                None => Some(now),
            },
            acknowledged_bytes: arith::saturate_u32(self.acknowledged_bytes + bytes),
            ..self
        }
    }

    /// The window after an acknowledgment, up to the move along the curve.
    pub open spec fn acknowledged(self, now: Instant, acked: AckedPacket, rtt: RttSample) -> Self {
        let measured = self.measured(acked.bytes, rtt.latest);
        if acked.bytes == 0 {
            self
        } else if self.in_slow_start() {
            measured.widened(acked.bytes)
        } else {
            measured.on_curve(acked.bytes, now)
        }
    }

    /// What an acknowledgment asks for.
    pub open spec fn step(self, now: Instant, acked: AckedPacket, rtt: RttSample) -> CubicStep {
        if acked.bytes == 0 || self.in_slow_start() {
            CubicStep::Settled
        } else {
            let after = self.acknowledged(now, acked, rtt);
            CubicStep::FollowCurve {
                epoch_started: self.epoch_start is None,
                since_epoch: now.spec_since(after.epoch_start->0),
                min_rtt: match after.min_rtt {
                    Some(rtt) => rtt,
                    None => Duration { nanos: 0 },
                },
            }
        }
    }

    /// What `bytes` that were acknowledged add on the way to `curve`: no less
    /// than the additive increase of a window that knows no curve, and no less
    /// than one byte.
    pub open spec fn increment(self, bytes: u32, curve: u32) -> u32 {
        let target = vstd::math::max(curve as int, self.spec_minimum_window() as int);
        let current = vstd::math::max(self.congestion_window as int, 1);
        let gap = arith::saturate_u32(target - self.congestion_window);
        let toward = arith::saturate_u32(gap * bytes) as int / current;
        let additive = self.max_datagram_size * bytes / current % 0x1_0000_0000;
        vstd::math::max(vstd::math::max(toward, additive), 1) as u32
    }

    /// The window after it moved toward `curve`.
    pub open spec fn grown(self, bytes: u32, curve: u32) -> Self {
        (CubicWindow {
            congestion_window: arith::saturate_u32(
                self.congestion_window + self.increment(bytes, curve),
            ),
            ..self
        }).paced()
    }

    /// The window after a loss that shrinks it to `shrunk`.
    pub open spec fn reduced(self, lost: LostPacket, shrunk: u32) -> Self {
        let window = vstd::math::max(shrunk as int, self.spec_minimum_window() as int) as u32;
        if lost.bytes == 0 {
            self
        } else {
            (CubicWindow {
                congestion_window: window,
                slow_start_threshold: window,
                epoch_start: None,
                acknowledged_bytes: 0,
                ..self
            }).paced()
        }
    }

    /// The window for datagrams of another size.
    pub open spec fn resized(self, max_datagram_size: u32) -> Self {
        let sized = CubicWindow {
            max_datagram_size: vstd::math::max(max_datagram_size as int, 1) as u32,
            epoch_start: None,
            acknowledged_bytes: 0,
            ..self
        };
        (CubicWindow { congestion_window: sized.window(), ..sized }).paced()
    }

    pub open spec fn spec_metrics(self) -> CongestionMetrics {
        CongestionMetrics {
            congestion_window: self.window(),
            pacing_rate_bytes_per_second: self.pacing_rate_bytes_per_second,
            delivered: self.delivered,
            max_bandwidth_bytes_per_second: self.max_bandwidth_bytes_per_second,
            min_rtt: self.min_rtt,
        }
    }

    /// The time that `pending_bytes` take at the pacing rate, rounded up.
    pub open spec fn spec_next_send_delay(self, pending_bytes: u32) -> Option<Duration> {
        match self.pacing_rate_bytes_per_second {
            Some(rate) if rate != 0 && pending_bytes != 0 => Some(
                Duration {
                    nanos: arith::saturate_u64(
                        arith::ceiling_div(pending_bytes * 1_000_000_000, rate as int),
                    ) as u128,
                },
            ),
            _ => None,
        }
    }

    pub fn new(max_datagram_size: u32) -> (r: Self)
        ensures
            r == Self::initial(max_datagram_size),
            r.well_formed(),
    {
        let max_datagram_size: u32 = max_u32(max_datagram_size, 1);
        CubicWindow {
            max_datagram_size,
            congestion_window: saturating_mul_u32(
                max_datagram_size,
                CUBIC_INITIAL_WINDOW_SEGMENTS,
            ),
            slow_start_threshold: u32::MAX,
            epoch_start: None,
            acknowledged_bytes: 0,
            delivered: 0,
            min_rtt: None,
            max_bandwidth_bytes_per_second: 0,
            pacing_rate_bytes_per_second: None,
        }
    }

    /// The window is never reported to be smaller than this.
    pub fn minimum_window(&self) -> (r: u32)
        ensures
            r == self.spec_minimum_window(),
    {
        saturating_mul_u32(self.max_datagram_size, CUBIC_MINIMUM_WINDOW_SEGMENTS)
    }

    pub fn congestion_window(&self) -> (r: u32)
        ensures
            r == self.window(),
    {
        max_u32(self.congestion_window, self.minimum_window())
    }

    pub fn metrics(&self) -> (r: CongestionMetrics)
        ensures
            r == self.spec_metrics(),
    {
        CongestionMetrics {
            congestion_window: self.congestion_window(),
            pacing_rate_bytes_per_second: self.pacing_rate_bytes_per_second,
            delivered: self.delivered,
            max_bandwidth_bytes_per_second: self.max_bandwidth_bytes_per_second,
            min_rtt: self.min_rtt,
        }
    }

    fn update_bandwidth(&mut self, bytes: u32, rtt: Duration)
        requires
            bytes != 0,
            rtt.nanos != 0,
        ensures
            *final(self) == (CubicWindow {
                max_bandwidth_bytes_per_second: vstd::math::max(
                    old(self).max_bandwidth_bytes_per_second as int,
                    bbr::delivery_rate(bytes, rtt) as int,
                ) as u64,
                ..*old(self)
            }),
    {
        let mut micros: u128 = rtt.as_micros();
        if micros == 0 {
            micros = 1;
        }
        let sample: u64 = narrow_u64(bytes as u128 * 1_000_000 / micros);
        self.max_bandwidth_bytes_per_second =
        max_u64(self.max_bandwidth_bytes_per_second, sample);
    }

    fn update_pacing_rate(&mut self)
        ensures
            *final(self) == old(self).paced(),
    {
        self.pacing_rate_bytes_per_second = match self.min_rtt {
            Some(rtt) => {
                let mut micros: u128 = rtt.as_micros();
                if micros == 0 {
                    micros = 1;
                }
                let rate: u128 = self.congestion_window as u128 * 1_000_000 / micros;
                proof {
                    vstd::arithmetic::div_mod::lemma_div_is_ordered_by_denominator(
                        self.congestion_window * 1_000_000,
                        1,
                        micros as int,
                    );
                }
                Some(
                    if rate == 0 {
                        1
                    } else {
                        rate as u64
                    },
                )
            },
            None => None,
        };
    }

    /// Takes in an acknowledgment. Where the window is to follow its curve it
    /// still has to be moved there, by [`Self::grow`].
    pub fn on_ack(&mut self, now: Instant, acked: AckedPacket, rtt: RttSample) -> (r: CubicStep)
        requires
            old(self).well_formed(),
        ensures
            final(self).well_formed(),
            *final(self) == old(self).acknowledged(now, acked, rtt),
            r == old(self).step(now, acked, rtt),
    {
        if acked.bytes == 0 {
            return CubicStep::Settled;
        }
        self.delivered = self.delivered.saturating_add(acked.bytes as u64);
        if !rtt.latest.is_zero() {
            self.min_rtt = Some(
                match self.min_rtt {
                    Some(shortest) => shortest.shorter(rtt.latest),
                    None => rtt.latest,
                },
            );
            self.update_bandwidth(acked.bytes, rtt.latest);
        }
        if self.congestion_window < self.slow_start_threshold {
            self.congestion_window = self.congestion_window.saturating_add(acked.bytes);
            self.update_pacing_rate();
            return CubicStep::Settled;
        }
        let (epoch_started, start): (bool, Instant) = match self.epoch_start {
            Some(start) => (false, start),
            None => (true, now),
        };
        self.epoch_start = Some(start);
        self.acknowledged_bytes = self.acknowledged_bytes.saturating_add(acked.bytes);
        CubicStep::FollowCurve {
            epoch_started,
            since_epoch: now.saturating_duration_since(start),
            min_rtt: match self.min_rtt {
                Some(shortest) => shortest,
                None => Duration::zero(),
            },
        }
    }

    /// Moves the window toward the point `curve` of its curve.
    pub fn grow(&mut self, acked_bytes: u32, curve: u32)
        requires
            old(self).well_formed(),
        ensures
            final(self).well_formed(),
            *final(self) == old(self).grown(acked_bytes, curve),
    {
        let target: u32 = max_u32(curve, self.minimum_window());
        let current: u32 = max_u32(self.congestion_window, 1);
        proof {
            assert(0 <= self.max_datagram_size * acked_bytes <= u64::MAX) by (nonlinear_arith)
                requires
                    0 <= self.max_datagram_size <= u32::MAX,
                    0 <= acked_bytes <= u32::MAX,
            ;
        }
        let additive: u64 = self.max_datagram_size as u64 * acked_bytes as u64 / current as u64
            % 0x1_0000_0000;
        let toward: u32 = saturating_mul_u32(
            target.saturating_sub(self.congestion_window),
            acked_bytes,
        ) / current;
        let increment: u32 = max_u32(max_u32(toward, additive as u32), 1);
        self.congestion_window = self.congestion_window.saturating_add(increment);
        self.update_pacing_rate();
    }

    /// Takes in a loss. `shrunk` is the share of the window that is left of it.
    pub fn on_loss(&mut self, lost: LostPacket, shrunk: u32)
        requires
            old(self).well_formed(),
        ensures
            final(self).well_formed(),
            *final(self) == old(self).reduced(lost, shrunk),
    {
        if lost.bytes == 0 {
            return ;
        }
        self.congestion_window = max_u32(shrunk, self.minimum_window());
        self.slow_start_threshold = self.congestion_window;
        self.epoch_start = None;
        self.acknowledged_bytes = 0;
        self.update_pacing_rate();
    }

    pub fn on_mtu_update(&mut self, max_datagram_size: u32)
        ensures
            final(self).well_formed(),
            *final(self) == old(self).resized(max_datagram_size),
    {
        self.max_datagram_size = max_u32(max_datagram_size, 1);
        self.congestion_window = self.congestion_window();
        self.epoch_start = None;
        self.acknowledged_bytes = 0;
        self.update_pacing_rate();
    }

    /// How long to wait until `pending_bytes` may go out.
    pub fn next_send_delay(&self, pending_bytes: u32) -> (r: Option<Duration>)
        ensures
            r == self.spec_next_send_delay(pending_bytes),
    {
        let Some(rate) = self.pacing_rate_bytes_per_second else {
            return None;
        };
        if rate == 0 || pending_bytes == 0 {
            return None;
        }
        let nanos: u128 = div_ceil_u128(pending_bytes as u128 * 1_000_000_000, rate as u128);
        proof {
            assert(arith::ceiling_div(pending_bytes * 1_000_000_000, rate as int) >= 1)
                by (nonlinear_arith)
                requires
                    pending_bytes >= 1,
                    rate >= 1,
            ;
        }
        Some(Duration::from_nanos(narrow_u64(nanos)))
    }
}

impl Default for CubicWindow {
    fn default() -> (r: Self)
        ensures
            r == CubicWindow::initial(DEFAULT_CUBIC_MAX_DATAGRAM_SIZE),
            r.well_formed(),
    {
        CubicWindow::new(DEFAULT_CUBIC_MAX_DATAGRAM_SIZE)
    }
}

/// No acknowledgment makes the window smaller, and one that moves it along its
/// curve makes it larger until it is as large as it can be.
pub proof fn cubic_acknowledgments_grow(
    window: CubicWindow,
    now: Instant,
    acked: AckedPacket,
    rtt: RttSample,
    curve: u32,
)
    ensures
        window.acknowledged(now, acked, rtt).congestion_window >= window.congestion_window,
        window.grown(acked.bytes, curve).congestion_window > window.congestion_window
            || window.congestion_window == u32::MAX,
{
}

/// A loss ends slow start: the window meets its threshold, and the next
/// acknowledgment starts a new curve.
pub proof fn cubic_loss_starts_a_curve(
    window: CubicWindow,
    lost: LostPacket,
    shrunk: u32,
    now: Instant,
    acked: AckedPacket,
    rtt: RttSample,
)
    requires
        lost.bytes != 0,
        acked.bytes != 0,
    ensures
        !window.reduced(lost, shrunk).in_slow_start(),
        window.reduced(lost, shrunk).step(now, acked, rtt) matches CubicStep::FollowCurve {
            epoch_started: true,
            since_epoch,
            ..
        } && since_epoch.nanos == 0,
{
}

/// What an acknowledgment measures: the bytes add up, the shortest round trip and the
/// highest rate are kept. In slow start the bytes are added to the window, paced over
/// the shortest round trip; afterwards they are counted toward the curve, which
/// starts with the first of them.
pub proof fn cubic_ack_is_counted(
    window: CubicWindow,
    now: Instant,
    acked: AckedPacket,
    rtt: RttSample,
)
    requires
        acked.bytes > 0,
        window.delivered + acked.bytes <= u64::MAX,
    ensures
        ({
            let after = window.acknowledged(now, acked, rtt);
            let latest = rtt.latest.nanos;
            let slow = window.congestion_window < window.slow_start_threshold;
            &&& after.delivered == window.delivered + acked.bytes
            &&& after.max_datagram_size == window.max_datagram_size
            &&& after.slow_start_threshold == window.slow_start_threshold
            &&& latest == 0 ==> after.min_rtt == window.min_rtt
                && after.max_bandwidth_bytes_per_second == window.max_bandwidth_bytes_per_second
            &&& latest > 0 ==> {
                &&& after.min_rtt == (if window.min_rtt is Some && window.min_rtt->0.nanos
                    < latest {
                    window.min_rtt
                } else {
                    Some(rtt.latest)
                })
                &&& after.max_bandwidth_bytes_per_second == vstd::math::max(
                    window.max_bandwidth_bytes_per_second as int,
                    vstd::math::min(
                        acked.bytes * 1_000_000 / (if latest < 1000 {
                            1
                        } else {
                            latest as int / 1000
                        }),
                        u64::MAX as int,
                    ),
                )
            }
            &&& slow ==> {
                &&& after.congestion_window == vstd::math::min(
                    window.congestion_window + acked.bytes,
                    u32::MAX as int,
                )
                &&& after.epoch_start == window.epoch_start
                &&& after.acknowledged_bytes == window.acknowledged_bytes
                &&& window.step(now, acked, rtt) == CubicStep::Settled
            }
            &&& !slow ==> {
                &&& after.congestion_window == window.congestion_window
                &&& after.pacing_rate_bytes_per_second == window.pacing_rate_bytes_per_second
                &&& after.acknowledged_bytes == vstd::math::min(
                    window.acknowledged_bytes + acked.bytes,
                    u32::MAX as int,
                )
                &&& after.epoch_start == (if window.epoch_start is None {
                    Some(now)
                } else {
                    window.epoch_start
                })
                &&& window.step(now, acked, rtt) matches CubicStep::FollowCurve {
                    epoch_started,
                    since_epoch,
                    min_rtt,
                } && epoch_started == (window.epoch_start is None) && since_epoch.nanos == (
                if now.nanos >= after.epoch_start->0.nanos {
                    now.nanos - after.epoch_start->0.nanos
                } else {
                    0
                }) && (after.min_rtt is Some ==> Some(min_rtt) == after.min_rtt) && (
                after.min_rtt is None ==> min_rtt.nanos == 0)
            }
        }),
{
}

/// The pacing rate sends one window in one shortest round trip, rounded down, and is
/// never zero.
pub proof fn cubic_paces_one_window_a_round_trip(window: CubicWindow)
    ensures
        ({
            let after = window.paced();
            &&& after == (CubicWindow {
                pacing_rate_bytes_per_second: after.pacing_rate_bytes_per_second,
                ..window
            })
            &&& (after.pacing_rate_bytes_per_second is Some) == (window.min_rtt is Some)
            &&& window.min_rtt matches Some(rtt) ==> {
                let micros = if rtt.nanos < 1000 {
                    1
                } else {
                    rtt.nanos as int / 1000
                };
                let rate = after.pacing_rate_bytes_per_second->0;
                &&& rate >= 1
                &&& rate == 1 || rate * micros <= window.congestion_window * 1_000_000
                &&& (rate + 1) * micros > window.congestion_window * 1_000_000
            }
        }),
{
    if let Some(rtt) = window.min_rtt {
        let micros = if rtt.nanos < 1000 {
            1
        } else {
            rtt.nanos as int / 1000
        };
        let work = window.congestion_window * 1_000_000;
        let quotient = work / micros;
        assert(quotient * micros <= work && (quotient + 1) * micros > work && 0 <= quotient
            <= work) by (nonlinear_arith)
            requires
                quotient == work / micros,
                micros > 0,
                work >= 0,
        ;
        let rate = vstd::math::max(quotient, 1);
        assert((rate + 1) * micros >= (quotient + 1) * micros) by (nonlinear_arith)
            requires
                rate >= quotient,
                micros > 0,
        ;
    }
}

/// On its curve the window grows by the share of the gap to the curve that the
/// acknowledged bytes have in the window, or by their share of a datagram, whichever
/// is more, and by one byte at least.
pub proof fn cubic_growth_is_proportional(window: CubicWindow, bytes: u32, curve: u32)
    requires
        window.well_formed(),
        window.congestion_window > 0,
        curve >= 2 * window.max_datagram_size,
        curve >= window.congestion_window,
        (curve - window.congestion_window) * bytes <= u32::MAX,
        window.max_datagram_size * bytes <= u32::MAX,
    ensures
        ({
            let after = window.grown(bytes, curve);
            let toward = (curve - window.congestion_window) * bytes
                / window.congestion_window as int;
            let additive = window.max_datagram_size * bytes / window.congestion_window as int;
            let more = vstd::math::max(vstd::math::max(toward, additive), 1);
            &&& after.congestion_window == vstd::math::min(
                window.congestion_window + more,
                u32::MAX as int,
            )
            &&& after == (CubicWindow {
                congestion_window: after.congestion_window,
                pacing_rate_bytes_per_second: after.pacing_rate_bytes_per_second,
                ..window
            })
            &&& after.pacing_rate_bytes_per_second == after.paced().pacing_rate_bytes_per_second
        }),
{
    let current = window.congestion_window as int;
    let gap = (curve - window.congestion_window) * bytes;
    let share = window.max_datagram_size * bytes;
    assert(0 <= gap) by (nonlinear_arith)
        requires
            gap == (curve - window.congestion_window) * bytes,
            curve >= window.congestion_window,
            bytes >= 0,
    ;
    assert(0 <= share) by (nonlinear_arith)
        requires
            share == window.max_datagram_size * bytes,
            window.max_datagram_size >= 0,
            bytes >= 0,
    ;
    assert(0 <= gap / current <= gap && 0 <= share / current <= share) by (nonlinear_arith)
        requires
            current > 0,
            gap >= 0,
            share >= 0,
    ;
}

/// A loss sets window and threshold to what is left, two datagrams at least, and the
/// curve starts anew; one without bytes does nothing. So does a new datagram size,
/// but for the threshold, and the window only grows by it.
pub proof fn cubic_loss_and_size_reset_the_curve(
    window: CubicWindow,
    lost: LostPacket,
    shrunk: u32,
    max_datagram_size: u32,
)
    requires
        window.well_formed(),
    ensures
        lost.bytes == 0 ==> window.reduced(lost, shrunk) == window,
        lost.bytes > 0 ==> {
            let after = window.reduced(lost, shrunk);
            &&& after.congestion_window == vstd::math::max(
                shrunk as int,
                vstd::math::min(2 * window.max_datagram_size, u32::MAX as int),
            )
            &&& after.slow_start_threshold == after.congestion_window
            &&& after.epoch_start is None && after.acknowledged_bytes == 0
            &&& after.delivered == window.delivered && after.min_rtt == window.min_rtt
            &&& after.pacing_rate_bytes_per_second == after.paced().pacing_rate_bytes_per_second
        },
        ({
            let after = window.resized(max_datagram_size);
            let size = vstd::math::max(max_datagram_size as int, 1);
            &&& after.max_datagram_size == size
            &&& after.congestion_window == vstd::math::max(
                window.congestion_window as int,
                vstd::math::min(2 * size, u32::MAX as int),
            )
            &&& after.slow_start_threshold == window.slow_start_threshold
            &&& after.epoch_start is None && after.acknowledged_bytes == 0
            &&& after.delivered == window.delivered && after.min_rtt == window.min_rtt
        }),
{
}

/// A new window holds ten datagrams and has no threshold; the one that is reported
/// holds two at least.
pub proof fn cubic_windows_are_reported_with_a_floor(window: CubicWindow, max_datagram_size: u32)
    requires
        window.well_formed(),
    ensures
        ({
            let fresh = CubicWindow::initial(max_datagram_size);
            let size = vstd::math::max(max_datagram_size as int, 1);
            &&& fresh.max_datagram_size == size
            &&& fresh.congestion_window == vstd::math::min(10 * size, u32::MAX as int)
            &&& fresh.slow_start_threshold == u32::MAX
            &&& fresh.epoch_start is None && fresh.min_rtt is None && fresh.delivered == 0
        }),
        window.spec_metrics().congestion_window == vstd::math::max(
            window.congestion_window as int,
            vstd::math::min(2 * window.max_datagram_size, u32::MAX as int),
        ),
        window.spec_metrics().delivered == window.delivered,
        window.spec_metrics().min_rtt == window.min_rtt,
        window.spec_metrics().max_bandwidth_bytes_per_second
            == window.max_bandwidth_bytes_per_second,
        window.spec_metrics().pacing_rate_bytes_per_second == window.pacing_rate_bytes_per_second,
{
}

/// The delay of a send is the least time in which the pacing rate covers its bytes.
pub proof fn cubic_delay_covers_the_bytes(window: CubicWindow, pending_bytes: u32)
    ensures
        ({
            let rate = window.pacing_rate_bytes_per_second;
            let delay = window.spec_next_send_delay(pending_bytes);
            &&& (delay is Some) == (rate is Some && rate->0 > 0 && pending_bytes > 0)
            &&& delay matches Some(span) ==> {
                &&& span.nanos * rate->0 >= pending_bytes * 1_000_000_000
                &&& (span.nanos - 1) * rate->0 < pending_bytes * 1_000_000_000
            }
        }),
{
    if let Some(rate) = window.pacing_rate_bytes_per_second {
        if rate > 0 && pending_bytes > 0 {
            let work = pending_bytes * 1_000_000_000;
            let rate = rate as int;
            let span = (work + rate - 1) / rate;
            assert(span * rate >= work && (span - 1) * rate < work && 0 <= span <= work)
                by (nonlinear_arith)
                requires
                    span == (work + rate - 1) / rate,
                    rate > 0,
                    work > 0,
            ;
        }
    }
}

/// What an acknowledgment asks for past slow start: the curve at the time since its
/// epoch began, over the shortest round trip. In slow start, and without bytes, it asks
/// for nothing.
pub proof fn cubic_step_asks_for_the_curve(
    window: CubicWindow,
    now: Instant,
    acked: AckedPacket,
    rtt: RttSample,
)
    ensures
        ({
            let step = window.step(now, acked, rtt);
            let after = window.acknowledged(now, acked, rtt);
            let slow = window.congestion_window < window.slow_start_threshold;
            &&& acked.bytes == 0 || slow ==> step is Settled
            &&& acked.bytes == 0 ==> after == window
            &&& acked.bytes > 0 && !slow ==> (step matches CubicStep::FollowCurve {
                epoch_started,
                since_epoch,
                min_rtt,
            } && {
                &&& epoch_started == (window.epoch_start is None)
                &&& window.epoch_start is None ==> since_epoch.nanos == 0
                &&& window.epoch_start matches Some(start) ==> since_epoch.nanos == (
                if now.nanos >= start.nanos {
                    now.nanos - start.nanos
                } else {
                    0
                })
                &&& after.min_rtt matches Some(least) ==> min_rtt == least
                &&& after.min_rtt is None ==> min_rtt.nanos == 0
            })
        }),
{
}

/// Above its curve a window grows by the additive share alone, and by at least one
/// byte.
pub proof fn cubic_growth_above_the_curve(window: CubicWindow, bytes: u32, curve: u32)
    requires
        window.well_formed(),
        curve <= window.congestion_window,
        2 * window.max_datagram_size <= window.congestion_window,
        window.max_datagram_size * bytes <= u32::MAX,
    ensures
        window.grown(bytes, curve).congestion_window == vstd::math::min(
            window.congestion_window + vstd::math::max(
                window.max_datagram_size * bytes / window.congestion_window as int,
                1,
            ),
            u32::MAX as int,
        ),
{
    let current = window.congestion_window as int;
    let share = window.max_datagram_size * bytes;
    assert(0 <= share) by (nonlinear_arith)
        requires
            share == window.max_datagram_size * bytes,
    ;
    assert(0 <= share / current <= share) by (nonlinear_arith)
        requires
            0 <= share,
            1 <= current,
    ;
    let gap = arith::saturate_u32(
        vstd::math::max(curve as int, window.spec_minimum_window() as int)
            - window.congestion_window,
    );
    assert(gap == 0);
    assert(gap * bytes == 0) by (nonlinear_arith)
        requires
            gap == 0,
    ;
    assert(0int / current == 0) by (nonlinear_arith)
        requires
            1 <= current,
    ;
}

} // verus!
