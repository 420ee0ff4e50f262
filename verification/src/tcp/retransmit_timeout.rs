//! The retransmission timeout, estimated from round-trip samples.
use vstd::prelude::*;

use crate::time::{Duration, MAX_DURATION_NANOS};

verus! {

/// The timeout before the first sample: 50 ms, in nanoseconds.
pub const TCP_INITIAL_RETRANSMIT_TIMEOUT: u128 = 50_000_000;

/// The shortest timeout: 50 ms, in nanoseconds.
pub const TCP_MIN_RETRANSMIT_TIMEOUT: u128 = 50_000_000;

/// The longest timeout: 60 s, in nanoseconds.
pub const TCP_MAX_RETRANSMIT_TIMEOUT: u128 = 60_000_000_000;

/// The longest round trip for which the weighted sums of the estimate stay
/// within the range of a [`Duration`], whatever was measured before.
pub const MAX_ROUND_TRIP_NANOS: u128 = 2_305_843_009_213_693_951_999_999_999;

/// The smoothed round trip, its variation and the timeout that follows.
#[derive(Clone, Copy, Debug, PartialEq, Eq, Structural)]
pub struct TcpRetransmitTimeoutState {
    pub srtt: Option<Duration>,
    pub rttvar: Option<Duration>,
    pub rto: Duration,
    pub skip_next_sample: bool,
}

/// `nanos` forced into the allowed range of timeouts.
pub open spec fn clamped_timeout(nanos: int) -> Duration {
    if nanos < TCP_MIN_RETRANSMIT_TIMEOUT {
        Duration { nanos: TCP_MIN_RETRANSMIT_TIMEOUT }
    } else if nanos > TCP_MAX_RETRANSMIT_TIMEOUT {
        Duration { nanos: TCP_MAX_RETRANSMIT_TIMEOUT }
    } else {
        Duration { nanos: nanos as u128 }
    }
}

/// How far apart two spans are.
pub open spec fn apart(a: Duration, b: Duration) -> int {
    if a.nanos >= b.nanos {
        a.nanos - b.nanos
    } else {
        b.nanos - a.nanos
    }
}

/// Three parts of the old variation and one part of the new deviation.
pub open spec fn smoothed_variation(rttvar: Duration, srtt: Duration, rtt: Duration) -> Duration {
    Duration { nanos: ((rttvar.nanos * 3 + apart(srtt, rtt)) / 4) as u128 }
}

/// Seven parts of the old estimate and one part of the new sample.
pub open spec fn smoothed_round_trip(srtt: Duration, rtt: Duration) -> Duration {
    Duration { nanos: ((srtt.nanos * 7 + rtt.nanos) / 8) as u128 }
}

impl TcpRetransmitTimeoutState {
    /// The state before the first sample.
    pub open spec fn initial() -> Self {
        TcpRetransmitTimeoutState {
            srtt: None,
            rttvar: None,
            rto: Duration { nanos: TCP_INITIAL_RETRANSMIT_TIMEOUT },
            skip_next_sample: false,
        }
    }

    /// The timeout is within its range and the estimates leave room for any
    /// sample up to [`MAX_ROUND_TRIP_NANOS`].
    pub open spec fn well_formed(self) -> bool {
        &&& TCP_MIN_RETRANSMIT_TIMEOUT <= self.rto.nanos <= TCP_MAX_RETRANSMIT_TIMEOUT
        &&& match self.srtt {
            Some(srtt) => srtt.nanos <= MAX_ROUND_TRIP_NANOS,
            None => true,
        }
        &&& match self.rttvar {
            Some(rttvar) => rttvar.nanos <= MAX_ROUND_TRIP_NANOS,
            None => true,
        }
    }

    /// The weighted sums that a sample leads to stay in range.
    pub open spec fn sums_fit(self, rtt: Duration) -> bool {
        self.skip_next_sample || match (self.srtt, self.rttvar) {
            (Some(srtt), Some(rttvar)) => {
                &&& rttvar.nanos * 3 + apart(srtt, rtt) <= MAX_DURATION_NANOS
                &&& srtt.nanos * 7 + rtt.nanos <= MAX_DURATION_NANOS
            },
            _ => rtt.nanos <= MAX_DURATION_NANOS,
        }
    }

    /// The state with the two estimates and the timeout that they lead to.
    pub open spec fn estimated(self, srtt: Duration, rttvar: Duration) -> Self {
        TcpRetransmitTimeoutState {
            srtt: Some(srtt),
            rttvar: Some(rttvar),
            rto: clamped_timeout(srtt.nanos + rttvar.nanos * 4),
            ..self
        }
    }

    /// The state after a sample; the one that follows a timeout is ignored.
    pub open spec fn sampled(self, rtt: Duration) -> Self {
        if self.skip_next_sample {
            TcpRetransmitTimeoutState { skip_next_sample: false, ..self }
        } else {
            match (self.srtt, self.rttvar) {
                (Some(srtt), Some(rttvar)) => self.estimated(
                    smoothed_round_trip(srtt, rtt),
                    smoothed_variation(rttvar, srtt, rtt),
                ),
                _ => self.estimated(rtt, Duration { nanos: (rtt.nanos as int / 2) as u128 }),
            }
        }
    }

    /// The state after a timeout: the timeout doubled, the next sample void.
    pub open spec fn timed_out(self) -> Self {
        TcpRetransmitTimeoutState {
            rto: clamped_timeout(self.rto.nanos * 2),
            skip_next_sample: true,
            ..self
        }
    }

    pub fn new() -> (r: Self)
        ensures
            r == TcpRetransmitTimeoutState::initial(),
            r.well_formed(),
    {
        TcpRetransmitTimeoutState {
            srtt: None,
            rttvar: None,
            rto: Duration { nanos: TCP_INITIAL_RETRANSMIT_TIMEOUT },
            skip_next_sample: false,
        }
    }

    pub fn smoothed_rtt(&self) -> (r: Option<Duration>)
        ensures
            r == self.srtt,
    {
        self.srtt
    }

    pub fn rtt_variance(&self) -> (r: Option<Duration>)
        ensures
            r == self.rttvar,
    {
        self.rttvar
    }

    pub fn retransmit_timeout(&self) -> (r: Duration)
        ensures
            r == self.rto,
    {
        self.rto
    }

    /// Takes in a round-trip sample and returns the timeout.
    pub fn observe_ack_sample(&mut self, rtt: Duration) -> (r: Duration)
        requires
            old(self).sums_fit(rtt),
        ensures
            *final(self) == old(self).sampled(rtt),
            r == final(self).rto,
    {
        if self.skip_next_sample {
            self.skip_next_sample = false;
            return self.rto;
        }
        let (srtt, rttvar) = match (self.srtt, self.rttvar) {
            (Some(srtt), Some(rttvar)) => {
                let deviation: u128 = if srtt.nanos >= rtt.nanos {
                    srtt.nanos - rtt.nanos
                } else {
                    rtt.nanos - srtt.nanos
                };
                (
                    Duration { nanos: (srtt.nanos * 7 + rtt.nanos) / 8 },
                    Duration { nanos: (rttvar.nanos * 3 + deviation) / 4 },
                )
            },
            _ => (rtt, Duration { nanos: rtt.nanos / 2 }),
        };
        self.srtt = Some(srtt);
        self.rttvar = Some(rttvar);
        self.rto = retransmit_timeout_from_estimate(srtt, rttvar);
        self.rto
    }

    /// Backs the timeout off and returns it.
    pub fn on_retransmission_timeout(&mut self) -> (r: Duration)
        requires
            old(self).rto.nanos * 2 <= MAX_DURATION_NANOS,
        ensures
            *final(self) == old(self).timed_out(),
            r == final(self).rto,
    {
        self.rto = clamp_retransmit_timeout(Duration { nanos: self.rto.nanos * 2 });
        self.skip_next_sample = true;
        self.rto
    }
}

impl Default for TcpRetransmitTimeoutState {
    fn default() -> (r: Self)
        ensures
            r == TcpRetransmitTimeoutState::initial(),
    {
        TcpRetransmitTimeoutState::new()
    }
}

fn retransmit_timeout_from_estimate(srtt: Duration, rttvar: Duration) -> (r: Duration)
    requires
        srtt.nanos <= MAX_DURATION_NANOS,
        rttvar.nanos <= MAX_DURATION_NANOS,
    ensures
        r == clamped_timeout(srtt.nanos + rttvar.nanos * 4),
{
    clamp_retransmit_timeout(Duration { nanos: srtt.nanos + rttvar.nanos * 4 })
}

fn clamp_retransmit_timeout(timeout: Duration) -> (r: Duration)
    ensures
        r == clamped_timeout(timeout.nanos as int),
{
    if timeout.nanos < TCP_MIN_RETRANSMIT_TIMEOUT {
        Duration { nanos: TCP_MIN_RETRANSMIT_TIMEOUT }
    } else if timeout.nanos > TCP_MAX_RETRANSMIT_TIMEOUT {
        Duration { nanos: TCP_MAX_RETRANSMIT_TIMEOUT }
    } else {
        timeout
    }
}

/// Samples up to [`MAX_ROUND_TRIP_NANOS`] can always be taken in, and timeouts
/// and such samples keep the state well formed.
pub proof fn timeout_state_stays_well_formed(state: TcpRetransmitTimeoutState, rtt: Duration)
    requires
        state.well_formed(),
        rtt.nanos <= MAX_ROUND_TRIP_NANOS,
    ensures
        state.sums_fit(rtt),
        state.sampled(rtt).well_formed(),
        state.timed_out().well_formed(),
{
}

/// Timeouts back off by doubling up to the longest timeout, and the sample that
/// follows one changes neither the estimates nor the timeout.
pub proof fn timeout_backs_off(state: TcpRetransmitTimeoutState, rtt: Duration)
    requires
        state.well_formed(),
    ensures
        state.timed_out().rto.nanos == vstd::math::min(
            state.rto.nanos * 2,
            TCP_MAX_RETRANSMIT_TIMEOUT as int,
        ),
        state.timed_out().sampled(rtt) == (TcpRetransmitTimeoutState {
            skip_next_sample: false,
            ..state.timed_out()
        }),
{
}

/// A steady round trip is a fixed point of the smoothed estimate, and its
/// variation never grows.
pub proof fn steady_round_trip_settles(state: TcpRetransmitTimeoutState, rtt: Duration)
    requires
        state.well_formed(),
        !state.skip_next_sample,
        state.srtt == Some(rtt),
        state.rttvar is Some,
    ensures
        state.sampled(rtt).srtt == Some(rtt),
        state.sampled(rtt).rttvar->0.nanos <= state.rttvar->0.nanos,
{
}

/// The state after `count` timeouts in a row.
pub open spec fn after_timeouts(
    state: TcpRetransmitTimeoutState,
    count: nat,
) -> TcpRetransmitTimeoutState
    decreases count,
{
    if count == 0 {
        state
    } else {
        after_timeouts(state, (count - 1) as nat).timed_out()
    }
}

/// Each of any number of timeouts in a row doubles the timeout, up to the longest,
/// and none of them touches the estimates.
pub proof fn repeated_timeouts_back_off(state: TcpRetransmitTimeoutState, count: nat)
    requires
        state.well_formed(),
    ensures
        after_timeouts(state, count).well_formed(),
        after_timeouts(state, count).rto.nanos == vstd::math::min(
            state.rto.nanos * vstd::arithmetic::power2::pow2(count),
            TCP_MAX_RETRANSMIT_TIMEOUT as int,
        ),
        after_timeouts(state, count).srtt == state.srtt,
        after_timeouts(state, count).rttvar == state.rttvar,
    decreases count,
{
    if count == 0 {
        vstd::arithmetic::power2::lemma2_to64();
    } else {
        let fewer = (count - 1) as nat;
        repeated_timeouts_back_off(state, fewer);
        vstd::arithmetic::power2::lemma_pow2_unfold(count);
        let rto = state.rto.nanos as int;
        let factor = vstd::arithmetic::power2::pow2(fewer) as int;
        assert(rto * (2 * factor) == 2 * (rto * factor)) by (nonlinear_arith);
    }
}

/// A sample of a round trip from `low` to `high`, or a timeout.
pub open spec fn sampled_between(
    before: TcpRetransmitTimeoutState,
    after: TcpRetransmitTimeoutState,
    low: Duration,
    high: Duration,
) -> bool {
    ||| after == before.timed_out()
    ||| exists|rtt: Duration|
        low.nanos <= rtt.nanos <= high.nanos && after == #[trigger] before.sampled(rtt)
}

/// Through any run of samples and timeouts the smoothed round trip stays between the
/// least and the greatest sample.
pub proof fn smoothed_round_trip_stays_between(
    states: Seq<TcpRetransmitTimeoutState>,
    low: Duration,
    high: Duration,
    last: int,
)
    requires
        0 <= last < states.len(),
        states[0] == TcpRetransmitTimeoutState::initial(),
        forall|i: int|
            0 <= i < last ==> sampled_between(#[trigger] states[i], states[i + 1], low, high),
    ensures
        states[last].srtt matches Some(srtt) ==> low.nanos <= srtt.nanos <= high.nanos,
        (states[last].srtt is Some) == (states[last].rttvar is Some),
    decreases last,
{
    if last > 0 {
        smoothed_round_trip_stays_between(states, low, high, last - 1);
        let before = states[last - 1];
        let after = states[last - 1 + 1];
        assert(sampled_between(before, after, low, high));
    }
}

/// A sample that is not void gives an estimate, if there was none before.
pub proof fn first_sample_is_the_estimate(state: TcpRetransmitTimeoutState, rtt: Duration)
    requires
        !state.skip_next_sample,
        state.srtt is None,
    ensures
        state.sampled(rtt).srtt == Some(rtt),
{
}

/// Where a sample counts, the estimate moves an eighth of the way to it and the
/// variation a quarter of the way to its deviation, rounded down; the timeout is the
/// estimate and four variations, from 50 ms to a minute.
pub proof fn sample_moves_the_estimates(state: TcpRetransmitTimeoutState, rtt: Duration)
    requires
        state.well_formed(),
        !state.skip_next_sample,
        state.srtt is Some,
        state.rttvar is Some,
        rtt.nanos <= MAX_ROUND_TRIP_NANOS,
    ensures
        ({
            let after = state.sampled(rtt);
            let old_trip = state.srtt->0.nanos;
            let old_variation = state.rttvar->0.nanos;
            let deviation = if old_trip < rtt.nanos {
                rtt.nanos - old_trip
            } else {
                old_trip - rtt.nanos
            };
            let trip = after.srtt->0.nanos;
            let variation = after.rttvar->0.nanos;
            let sum = trip + 4 * variation;
            &&& after.srtt is Some && after.rttvar is Some && !after.skip_next_sample
            &&& 8 * trip <= 7 * old_trip + rtt.nanos < 8 * trip + 8
            &&& 4 * variation <= 3 * old_variation + deviation < 4 * variation + 4
            &&& after.rto.nanos == (if sum < 50_000_000 {
                50_000_000
            } else if sum > 60_000_000_000 {
                60_000_000_000
            } else {
                sum
            })
        }),
{
}

/// The first sample is the estimate, half of it the variation, and three of it the
/// timeout, from 50 ms to a minute. The sample after a timeout only lifts the ban.
pub proof fn first_sample_sets_the_estimates(state: TcpRetransmitTimeoutState, rtt: Duration)
    requires
        rtt.nanos <= MAX_ROUND_TRIP_NANOS,
    ensures
        state.skip_next_sample ==> state.sampled(rtt) == (TcpRetransmitTimeoutState {
            skip_next_sample: false,
            ..state
        }),
        !state.skip_next_sample && state.srtt is None ==> {
            let after = state.sampled(rtt);
            let sum = rtt.nanos + 4 * (rtt.nanos as int / 2);
            &&& after.srtt == Some(rtt)
            &&& after.rttvar is Some && after.rttvar->0.nanos == rtt.nanos as int / 2
            &&& after.rto.nanos == (if sum < 50_000_000 {
                50_000_000
            } else if sum > 60_000_000_000 {
                60_000_000_000
            } else {
                sum
            })
        },
        TcpRetransmitTimeoutState::initial().rto.nanos == 50_000_000,
        TcpRetransmitTimeoutState::initial().srtt is None,
        !TcpRetransmitTimeoutState::initial().skip_next_sample,
{
}

} // verus!
