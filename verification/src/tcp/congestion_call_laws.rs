//! What one call of TCP's BBR state does, told by the numbers before and after it.
use vstd::prelude::*;

use crate::tcp::congestion;
use crate::tcp::congestion::{
    TcpBbrMode, TcpBbrState, TcpCongestionAckSample, TcpCongestionControl, TcpCongestionState,
};
use crate::time::{Duration, Instant};

verus! {

/// The shortest round trip was measured more than ten seconds ago.
pub open spec fn filter_over(before: TcpBbrState, now: Instant) -> bool {
    before.min_rtt_stamp matches Some(stamp) && now.nanos > stamp.nanos + 10_000_000_000
}

/// Four segments, the least window.
pub open spec fn least_window(state: TcpBbrState) -> int {
    vstd::math::min(4 * vstd::math::max(state.max_segment_size as int, 1), u32::MAX as int)
}

/// Bytes per second over a round trip in whole microseconds, at least one.
pub open spec fn rate_of(bytes: u32, rtt: Duration) -> int {
    let micros = if rtt.nanos < 1000 {
        1
    } else {
        rtt.nanos as int / 1000
    };
    vstd::math::min((bytes * 1_000_000) / micros, u64::MAX as int)
}

/// The bytes that this acknowledgment delivers cross the mark of the round.
pub open spec fn round_ends(before: TcpBbrState, bytes: u32) -> bool {
    before.round_end_marker_active && before.delivered < before.next_round_delivered
        <= before.delivered + bytes
}

/// The pacing gain of a mode, in thousandths.
pub open spec fn gain_of(state: TcpBbrState) -> int {
    match state.mode {
        TcpBbrMode::Startup => 2885,
        TcpBbrMode::Drain => 347,
        TcpBbrMode::ProbeBw => if state.cycle_index == 0 {
            1250
        } else if state.cycle_index == 1 {
            750
        } else {
            1000
        },
        TcpBbrMode::ProbeRtt => 1000,
    }
}

/// `gain` thousandths of what the bandwidth delivers in the shortest round trip, at
/// least the least window.
pub open spec fn share_of_pipe(state: TcpBbrState, gain: u32) -> int {
    vstd::math::max(
        vstd::math::min(
            state.max_bandwidth_bytes_per_second * (state.min_rtt->0.nanos / 1000) * gain
                / 1_000_000_000,
            u32::MAX as int,
        ),
        least_window(state),
    )
}

/// The product behind [`share_of_pipe`] can be held.
pub open spec fn pipe_fits(state: TcpBbrState) -> bool {
    state.min_rtt is Some && state.max_bandwidth_bytes_per_second > 0
        && state.max_bandwidth_bytes_per_second * (state.min_rtt->0.nanos / 1000) * 2000
        <= u128::MAX
}

proof fn lemma_share(state: TcpBbrState)
    requires
        state.well_formed(),
        pipe_fits(state),
    ensures
        state.spec_target_congestion_window(2000) == share_of_pipe(state, 2000),
        state.spec_target_congestion_window(1000) == share_of_pipe(state, 1000),
{
    congestion::tcp_bbr_target_window(state, 1000, 2000);
    congestion::tcp_bbr_target_window(state, 2000, 2000);
    let span = state.min_rtt->0.nanos / 1000;
    let bandwidth = state.max_bandwidth_bytes_per_second;
    assert(0 <= bandwidth * span * 1000 <= bandwidth * span * 2000) by (nonlinear_arith)
        requires
            0 <= bandwidth,
            0 <= span,
    ;
}

/// What every measured acknowledgment does, in whatever mode: the delivered bytes and
/// the bandwidth grow, the shortest round trip is kept for ten seconds, the round
/// ends where its mark is crossed, and the pacing follows the mode that it leaves.
#[verifier::spinoff_prover]
pub proof fn measured_ack_updates_the_estimates(
    before: TcpBbrState,
    sample: TcpCongestionAckSample,
)
    requires
        before.well_formed(),
        sample.bytes_acked > 0,
        before.delivered + sample.bytes_acked <= u64::MAX,
    ensures
        ({
            let after = before.after_ack(sample);
            let bandwidth = vstd::math::max(
                before.max_bandwidth_bytes_per_second as int,
                rate_of(sample.bytes_acked, sample.rtt),
            );
            let shorter = before.min_rtt is None || sample.rtt.nanos <= before.min_rtt->0.nanos
                || filter_over(before, sample.now);
            &&& after.well_formed()
            &&& after.delivered == before.delivered + sample.bytes_acked
            &&& after.max_bandwidth_bytes_per_second == bandwidth
            &&& after.min_rtt == (if shorter {
                Some(sample.rtt)
            } else {
                before.min_rtt
            })
            &&& after.min_rtt_stamp == (if shorter {
                Some(sample.now)
            } else {
                before.min_rtt_stamp
            })
            &&& after.round_start == round_ends(before, sample.bytes_acked)
            &&& after.round_end_marker_active == (before.round_end_marker_active && !round_ends(
                before,
                sample.bytes_acked,
            ))
            &&& after.next_round_delivered == before.next_round_delivered
            &&& after.max_segment_size == before.max_segment_size
            &&& after.pacing_rate_bytes_per_second == (if bandwidth == 0 {
                before.pacing_rate_bytes_per_second
            } else if bandwidth * gain_of(after) < 1000 {
                Some(1u64)
            } else {
                Some(
                    vstd::math::min(
                        bandwidth * gain_of(after) / 1000,
                        u64::MAX as int,
                    ) as u64,
                )
            })
        }),
{
    let after = before.after_ack(sample);
    let counted = before.delivery_counted(sample.bytes_acked);
    let entered = counted.probe_rtt_entered(sample.now);
    let measured = entered.min_rtt_updated(sample.rtt, sample.now).bandwidth_updated(
        sample.bytes_acked,
        sample.rtt,
    );
    let stepped = measured.mode_step(sample);
    assert(after == stepped.paced());
    assert(gain_of(stepped) == stepped.pacing_gain());
    assert(gain_of(after) == gain_of(stepped));
    let bandwidth = after.max_bandwidth_bytes_per_second;
    let gain = gain_of(after);
    assert(0 <= bandwidth * gain) by (nonlinear_arith)
        requires
            0 <= bandwidth,
            0 <= gain,
    ;
}

/// A measured acknowledgment that finds Startup, and does not turn to ProbeRtt, adds
/// the acknowledged bytes to the window. Startup goes on unless the third round in a
/// row ends without the bandwidth a quarter above the best before.
#[verifier::spinoff_prover]
pub proof fn startup_ack_opens_the_window(
    before: TcpBbrState,
    sample: TcpCongestionAckSample,
)
    requires
        before.well_formed(),
        before.mode == TcpBbrMode::Startup,
        sample.bytes_acked > 0,
        !filter_over(before, sample.now),
        before.delivered + sample.bytes_acked <= u64::MAX,
    ensures
        ({
            let after = before.after_ack(sample);
            let bandwidth = after.max_bandwidth_bytes_per_second;
            let full = before.full_bandwidth_bytes_per_second;
            let judged = round_ends(before, sample.bytes_acked);
            let grows = full == 0 || bandwidth >= full + (if full < 4 {
                1
            } else {
                full / 4
            });
            &&& after.congestion_window == vstd::math::max(
                vstd::math::min(before.congestion_window + sample.bytes_acked, u32::MAX as int),
                least_window(before),
            )
            &&& !judged ==> {
                &&& after.mode == TcpBbrMode::Startup
                &&& after.full_bandwidth_bytes_per_second == full
                &&& after.full_bandwidth_rounds == before.full_bandwidth_rounds
            }
            &&& judged && full + full / 4 + 1 <= u64::MAX && grows ==> {
                &&& after.mode == TcpBbrMode::Startup
                &&& after.full_bandwidth_bytes_per_second == bandwidth
                &&& after.full_bandwidth_rounds == 0
            }
            &&& judged && full + full / 4 + 1 <= u64::MAX && !grows
                && before.full_bandwidth_rounds < u8::MAX ==> {
                &&& after.full_bandwidth_rounds == before.full_bandwidth_rounds + 1
                &&& after.full_bandwidth_bytes_per_second == full
                &&& after.mode == (if before.full_bandwidth_rounds >= 2 {
                    TcpBbrMode::Drain
                } else {
                    TcpBbrMode::Startup
                })
            }
        }),
{
    let after = before.after_ack(sample);
    let counted = before.delivery_counted(sample.bytes_acked);
    let entered = counted.probe_rtt_entered(sample.now);
    let measured = entered.min_rtt_updated(sample.rtt, sample.now).bandwidth_updated(
        sample.bytes_acked,
        sample.rtt,
    );
    let stepped = measured.mode_step(sample);
    assert(after == stepped.paced());
    assert(entered.mode == TcpBbrMode::Startup);
}

/// A measured acknowledgment that finds Drain sets the window to twice the pipe, and
/// ends Drain once no more than one pipe is in flight.
#[verifier::spinoff_prover]
pub proof fn drain_ack_holds_two_pipes(
    before: TcpBbrState,
    sample: TcpCongestionAckSample,
)
    requires
        before.well_formed(),
        before.mode == TcpBbrMode::Drain,
        sample.bytes_acked > 0,
        !filter_over(before, sample.now),
        pipe_fits(before.after_ack(sample)),
    ensures
        ({
            let after = before.after_ack(sample);
            let drained = sample.bytes_in_flight <= share_of_pipe(after, 1000);
            &&& after.congestion_window == share_of_pipe(after, 2000)
            &&& after.mode == (if drained {
                TcpBbrMode::ProbeBw
            } else {
                TcpBbrMode::Drain
            })
            &&& drained ==> after.cycle_index == 0 && after.cycle_stamp == Some(sample.now)
            &&& !drained ==> after.cycle_index == before.cycle_index && after.cycle_stamp
                == before.cycle_stamp
        }),
{
    let after = before.after_ack(sample);
    let counted = before.delivery_counted(sample.bytes_acked);
    let entered = counted.probe_rtt_entered(sample.now);
    let measured = entered.min_rtt_updated(sample.rtt, sample.now).bandwidth_updated(
        sample.bytes_acked,
        sample.rtt,
    );
    let stepped = measured.mode_step(sample);
    assert(after == stepped.paced());
    assert(entered.mode == TcpBbrMode::Drain);
    lemma_share(after);
    assert(after.spec_target_congestion_window(2000) == measured.spec_target_congestion_window(
        2000,
    ));
    assert(after.spec_target_congestion_window(1000) == measured.spec_target_congestion_window(
        1000,
    ));
}

/// A measured acknowledgment that finds ProbeBw never lowers the window, holds at
/// least two pipes, and turns to the next of the eight gains once a shortest round
/// trip has passed.
#[verifier::spinoff_prover]
pub proof fn probe_bw_ack_cycles(
    before: TcpBbrState,
    sample: TcpCongestionAckSample,
)
    requires
        before.well_formed(),
        before.mode == TcpBbrMode::ProbeBw,
        sample.bytes_acked > 0,
        !filter_over(before, sample.now),
        pipe_fits(before.after_ack(sample)),
    ensures
        ({
            let after = before.after_ack(sample);
            let over = before.cycle_stamp matches Some(stamp) ==> sample.now.nanos >= stamp.nanos
                + after.min_rtt->0.nanos || after.min_rtt->0.nanos == 0;
            &&& after.mode == TcpBbrMode::ProbeBw
            &&& after.congestion_window == vstd::math::max(
                before.congestion_window as int,
                share_of_pipe(after, 2000),
            )
            &&& over ==> after.cycle_index == (if before.cycle_index == 7 {
                0
            } else {
                before.cycle_index + 1
            }) && after.cycle_stamp == Some(sample.now)
            &&& !over ==> after.cycle_index == before.cycle_index && after.cycle_stamp
                == before.cycle_stamp
        }),
{
    let after = before.after_ack(sample);
    let counted = before.delivery_counted(sample.bytes_acked);
    let entered = counted.probe_rtt_entered(sample.now);
    let measured = entered.min_rtt_updated(sample.rtt, sample.now).bandwidth_updated(
        sample.bytes_acked,
        sample.rtt,
    );
    let stepped = measured.mode_step(sample);
    assert(after == stepped.paced());
    assert(entered.mode == TcpBbrMode::ProbeBw);
    lemma_share(after);
    assert(after.spec_target_congestion_window(2000) == measured.spec_target_congestion_window(
        2000,
    ));
}

/// Ten seconds after the shortest round trip was measured, the next measured
/// acknowledgment turns to ProbeRtt: the window shrinks to the least, and 200 ms
/// start once no more than that is in flight.
#[verifier::spinoff_prover]
pub proof fn old_estimate_turns_to_probe_rtt(
    before: TcpBbrState,
    sample: TcpCongestionAckSample,
)
    requires
        before.well_formed(),
        before.mode != TcpBbrMode::ProbeRtt,
        sample.bytes_acked > 0,
        filter_over(before, sample.now),
        before.delivered + sample.bytes_acked <= u64::MAX,
        sample.now.nanos + 200_000_000 <= u128::MAX,
    ensures
        ({
            let after = before.after_ack(sample);
            &&& after.mode == TcpBbrMode::ProbeRtt
            &&& after.prior_mode == before.mode
            &&& after.congestion_window == least_window(before)
            &&& after.probe_rtt_done_stamp == (if sample.bytes_in_flight <= least_window(before) {
                Some(Instant { nanos: (sample.now.nanos + 200_000_000) as u128 })
            } else {
                None
            })
            &&& after.probe_rtt_round_done == round_ends(before, sample.bytes_acked)
        }),
{
    let after = before.after_ack(sample);
    let counted = before.delivery_counted(sample.bytes_acked);
    let entered = counted.probe_rtt_entered(sample.now);
    let measured = entered.min_rtt_updated(sample.rtt, sample.now).bandwidth_updated(
        sample.bytes_acked,
        sample.rtt,
    );
    let stepped = measured.mode_step(sample);
    assert(after == stepped.paced());
    assert(entered.mode == TcpBbrMode::ProbeRtt);
}

/// ProbeRtt keeps the least window until its 200 ms are over and a round has ended
/// since; then it goes back to where it came from, with two pipes as the window.
#[verifier::spinoff_prover]
pub proof fn probe_rtt_ack_waits_and_returns(
    before: TcpBbrState,
    sample: TcpCongestionAckSample,
)
    requires
        before.well_formed(),
        before.mode == TcpBbrMode::ProbeRtt,
        sample.bytes_acked > 0,
        before.delivered + sample.bytes_acked <= u64::MAX,
        sample.now.nanos + 200_000_000 <= u128::MAX,
        pipe_fits(before.after_ack(sample)),
    ensures
        ({
            let after = before.after_ack(sample);
            let begins = before.probe_rtt_done_stamp is None && sample.bytes_in_flight <= least_window(before);
            let rounded = round_ends(before, sample.bytes_acked) || (before.probe_rtt_round_done && !begins);
            let over = rounded && (before.probe_rtt_done_stamp matches Some(done) && sample.now.nanos
                >= done.nanos);
            let back = if before.prior_mode == TcpBbrMode::ProbeRtt {
                TcpBbrMode::ProbeBw
            } else {
                before.prior_mode
            };
            &&& after.mode == (if over {
                back
            } else {
                TcpBbrMode::ProbeRtt
            })
            &&& after.congestion_window == (if over {
                share_of_pipe(after, 2000)
            } else {
                least_window(before)
            })
            &&& after.probe_rtt_done_stamp == (if over {
                None
            } else if begins {
                Some(Instant { nanos: (sample.now.nanos + 200_000_000) as u128 })
            } else {
                before.probe_rtt_done_stamp
            })
            &&& after.probe_rtt_round_done == (rounded && !over)
            &&& over && back == TcpBbrMode::ProbeBw ==> after.cycle_index == 0 && after.cycle_stamp
                == Some(sample.now)
            &&& !(over && back == TcpBbrMode::ProbeBw) ==> after.cycle_index == before.cycle_index
                && after.cycle_stamp == before.cycle_stamp
        }),
{
    let after = before.after_ack(sample);
    let counted = before.delivery_counted(sample.bytes_acked);
    let entered = counted.probe_rtt_entered(sample.now);
    let measured = entered.min_rtt_updated(sample.rtt, sample.now).bandwidth_updated(
        sample.bytes_acked,
        sample.rtt,
    );
    let stepped = measured.mode_step(sample);
    assert(after == stepped.paced());
    assert(entered == counted);
    lemma_share(after);
    assert(after.spec_target_congestion_window(2000) == measured.spec_target_congestion_window(
        2000,
    ));
}

/// An acknowledgment without bytes does nothing.
pub proof fn empty_ack_does_nothing(before: TcpBbrState, sample: TcpCongestionAckSample)
    requires
        sample.bytes_acked == 0,
    ensures
        before.after_ack(sample) == before,
{
}

/// A send with nothing in flight, or the first since a round ended, marks the end of
/// the next round behind everything in flight; another send marks nothing.
pub proof fn send_marks_the_round(before: TcpBbrState, bytes_sent: u32, bytes_in_flight: u32)
    requires
        before.delivered + bytes_in_flight + bytes_sent <= u64::MAX,
    ensures
        ({
            let after = before.after_packet_sent(bytes_sent, bytes_in_flight);
            if bytes_sent > 0 && (bytes_in_flight == 0 || before.round_start) {
                after == (TcpBbrState {
                    next_round_delivered: (before.delivered + bytes_in_flight + bytes_sent) as u64,
                    round_end_marker_active: true,
                    round_start: false,
                    ..before
                })
            } else {
                after == before
            }
        }),
{
}

/// A loss takes half of the lost bytes off the window, down to the least, and changes
/// nothing else.
pub proof fn loss_takes_half_the_lost_bytes(before: TcpBbrState, bytes_lost: u32)
    requires
        before.well_formed(),
    ensures
        ({
            let after = before.after_loss(bytes_lost);
            &&& after == (TcpBbrState { congestion_window: after.congestion_window, ..before })
            &&& bytes_lost > 0 ==> after.congestion_window == vstd::math::max(
                before.congestion_window - bytes_lost / 2,
                least_window(before),
            )
            &&& bytes_lost == 0 ==> after == before
        }),
{
}

/// The delay of a send is the longest time in which the pacing rate covers no more
/// than its bytes, and at least a nanosecond.
pub proof fn delay_stays_within_the_bytes(state: TcpBbrState, pending_bytes: u32)
    requires
        state.well_formed(),
    ensures
        ({
            let rate = state.pacing_rate_bytes_per_second;
            let delay = state.spec_next_send_delay(pending_bytes);
            &&& (delay is Some) == (rate is Some && rate->0 > 0 && pending_bytes > 0)
            &&& delay matches Some(span) ==> {
                &&& span.nanos >= 1
                &&& span.nanos == 1 || span.nanos * rate->0 <= pending_bytes * 1_000_000_000
                &&& (span.nanos + 1) * rate->0 > pending_bytes * 1_000_000_000
            }
        }),
{
    if let Some(rate) = state.pacing_rate_bytes_per_second {
        if rate > 0 && pending_bytes > 0 {
            let work = pending_bytes * 1_000_000_000;
            let rate = rate as int;
            let span = work / rate;
            assert(span * rate <= work && (span + 1) * rate > work && 0 <= span <= work)
                by (nonlinear_arith)
                requires
                    span == work / rate,
                    rate > 0,
                    work > 0,
            ;
            let least = vstd::math::max(span, 1);
            assert((least + 1) * rate >= (span + 1) * rate) by (nonlinear_arith)
                requires
                    least >= span,
                    rate > 0,
            ;
        }
    }
}

/// A new state starts in Startup with ten segments and no estimate; the window in
/// force is never less than four. The wrapped state does what the state does.
pub proof fn new_state_has_ten_segments(max_segment_size: u32)
    ensures
        ({
            let fresh = TcpBbrState::initial(max_segment_size);
            let size = vstd::math::max(max_segment_size as int, 1);
            &&& fresh.max_segment_size == size
            &&& fresh.mode == TcpBbrMode::Startup
            &&& fresh.spec_congestion_window() == vstd::math::min(10 * size, u32::MAX as int)
            &&& fresh.spec_pacing_rate() is None
            &&& fresh.spec_delivered() == 0
            &&& fresh.spec_max_bandwidth() == 0
            &&& fresh.spec_min_rtt() is None
            &&& !fresh.round_end_marker_active && fresh.full_bandwidth_bytes_per_second == 0
        }),
{
}

/// What a state tells of itself, and that wrapping it changes nothing of that.
pub proof fn metrics_are_the_estimates(
    state: TcpBbrState,
    sample: TcpCongestionAckSample,
    bytes: u32,
    bytes_in_flight: u32,
)
    requires
        state.well_formed(),
    ensures
        state.spec_congestion_window() == vstd::math::max(
            state.congestion_window as int,
            least_window(state),
        ),
        state.spec_pacing_rate() == state.pacing_rate_bytes_per_second,
        state.spec_delivered() == state.delivered,
        state.spec_max_bandwidth() == state.max_bandwidth_bytes_per_second,
        state.spec_min_rtt() == state.min_rtt,
        ({
            let wrapped = TcpCongestionState::of(state);
            &&& wrapped.spec_congestion_window() == state.spec_congestion_window()
            &&& wrapped.spec_pacing_rate() == state.spec_pacing_rate()
            &&& wrapped.spec_delivered() == state.spec_delivered()
            &&& wrapped.spec_max_bandwidth() == state.spec_max_bandwidth()
            &&& wrapped.spec_min_rtt() == state.spec_min_rtt()
            &&& wrapped.spec_next_send_delay(bytes) == state.spec_next_send_delay(bytes)
            &&& wrapped.after_ack(sample).bbr() == state.after_ack(sample)
            &&& wrapped.after_loss(bytes).bbr() == state.after_loss(bytes)
            &&& wrapped.after_packet_sent(bytes, bytes_in_flight).bbr() == state.after_packet_sent(
                bytes,
                bytes_in_flight,
            )
        }),
{
}

} // verus!
