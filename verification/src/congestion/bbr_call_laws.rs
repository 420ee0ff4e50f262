//! What one call of the BBR controller does, told by the numbers before and after it.
use vstd::prelude::*;

use crate::congestion::bbr;
use crate::congestion::bbr::{BbrAckSample, BbrController, BbrMode};
use crate::congestion::bbr_laws;
use crate::congestion::controller::CongestionController;
use crate::congestion::types::{AckedPacket, LostPacket, PacketNumber, RttSample};
use crate::time::{Duration, Instant};

verus! {

/// The shortest round trip was measured more than ten seconds ago.
pub open spec fn filter_over(before: BbrController, now: Instant) -> bool {
    before.min_rtt_stamp matches Some(stamp) && now.nanos > stamp.nanos + 10_000_000_000
}

/// Four datagrams, the least window.
pub open spec fn least_window(state: BbrController) -> int {
    vstd::math::min(4 * state.max_datagram_size, u32::MAX as int)
}

/// Bytes per second over a round trip in whole microseconds, at least one.
pub open spec fn rate_of(bytes: u32, rtt: Duration) -> int {
    let micros = if rtt.nanos < 1000 {
        1
    } else {
        rtt.nanos as int / 1000
    };
    vstd::math::min((bytes * 1_000_000) / micros, u64::MAX as int)
}

/// The bytes that this acknowledgment delivers cross the mark of the round.
pub open spec fn round_ends(before: BbrController, bytes: u32) -> bool {
    before.round_end_marker_active && before.delivered < before.next_round_delivered
        <= before.delivered + bytes
}

/// The pacing gain of a mode, in thousandths.
pub open spec fn gain_of(state: BbrController) -> int {
    match state.mode {
        BbrMode::Startup => 2885,
        BbrMode::Drain => 347,
        BbrMode::ProbeBw => if state.cycle_index == 0 {
            1250
        } else if state.cycle_index == 1 {
            750
        } else {
            1000
        },
        BbrMode::ProbeRtt => 1000,
    }
}

/// `gain` thousandths of what the bandwidth delivers in the shortest round trip, at
/// least the least window.
pub open spec fn share_of_pipe(state: BbrController, gain: u32) -> int {
    vstd::math::max(
        vstd::math::min(
            state.max_bandwidth_bytes_per_second * (state.min_rtt->0.nanos / 1000) * gain
                / 1_000_000_000,
            u32::MAX as int,
        ),
        least_window(state),
    )
}

/// The product behind [`share_of_pipe`] can be held.
pub open spec fn pipe_fits(state: BbrController) -> bool {
    state.min_rtt is Some && state.max_bandwidth_bytes_per_second > 0
        && state.max_bandwidth_bytes_per_second * (state.min_rtt->0.nanos / 1000) * 2000
        <= u128::MAX
}

proof fn lemma_share(state: BbrController)
    requires
        state.well_formed(),
        pipe_fits(state),
    ensures
        state.spec_target_congestion_window(2000) == share_of_pipe(state, 2000),
        state.spec_target_congestion_window(1000) == share_of_pipe(state, 1000),
{
    bbr::bbr_target_window(state, 1000, 2000);
    bbr::bbr_target_window(state, 2000, 2000);
    let span = state.min_rtt->0.nanos / 1000;
    let bandwidth = state.max_bandwidth_bytes_per_second;
    assert(0 <= bandwidth * span * 1000 <= bandwidth * span * 2000) by (nonlinear_arith)
        requires
            0 <= bandwidth,
            0 <= span,
    ;
}

/// What every measured acknowledgment does, in whatever mode: the delivered bytes and
/// the bandwidth grow, the shortest round trip is kept for ten seconds, the round
/// ends where its mark is crossed, and the pacing follows the mode that it leaves.
#[verifier::spinoff_prover]
pub proof fn measured_ack_updates_the_estimates(
    before: BbrController,
    now: Instant,
    acked: AckedPacket,
    rtt: RttSample,
    bytes_in_flight: u32,
)
    requires
        before.well_formed(),
        acked.bytes > 0,
        rtt.latest.nanos > 0,
        before.delivered + acked.bytes <= u64::MAX,
    ensures
        ({
            let after = before.after_ack(now, acked, rtt, bytes_in_flight);
            let bandwidth = vstd::math::max(
                before.max_bandwidth_bytes_per_second as int,
                rate_of(acked.bytes, rtt.latest),
            );
            let shorter = before.min_rtt is None || rtt.latest.nanos <= before.min_rtt->0.nanos
                || filter_over(before, now);
            &&& after.well_formed()
            &&& after.delivered == before.delivered + acked.bytes
            &&& after.max_bandwidth_bytes_per_second == bandwidth
            &&& after.min_rtt == (if shorter {
                Some(rtt.latest)
            } else {
                before.min_rtt
            })
            &&& after.min_rtt_stamp == (if shorter {
                Some(now)
            } else {
                before.min_rtt_stamp
            })
            &&& after.round_start == round_ends(before, acked.bytes)
            &&& after.round_end_marker_active == (before.round_end_marker_active && !round_ends(
                before,
                acked.bytes,
            ))
            &&& after.next_round_delivered == before.next_round_delivered
            &&& after.max_datagram_size == before.max_datagram_size
            &&& after.pacing_rate_bytes_per_second == (if bandwidth == 0 {
                before.pacing_rate_bytes_per_second
            } else if bandwidth * gain_of(after) < 1000 {
                Some(1u64)
            } else {
                Some(
                    vstd::math::min(
                        bandwidth * gain_of(after) / 1000,
                        u64::MAX as int,
                    ) as u64,
                )
            })
        }),
{
    let after = before.after_ack(now, acked, rtt, bytes_in_flight);
    let app_limited = acked.app_limited || before.window_unfilled(acked.bytes, bytes_in_flight);
    let sample = BbrAckSample { bytes_acked: acked.bytes, rtt: rtt.latest, now };
    let counted = before.delivery_counted(acked.bytes);
    let entered = counted.probe_rtt_entered(now);
    let measured = entered.min_rtt_updated(rtt.latest, now).bandwidth_updated(
        acked.bytes,
        rtt.latest,
    );
    let stepped = measured.mode_step(sample, bytes_in_flight, app_limited);
    assert(after == stepped.paced());
    assert(gain_of(stepped) == stepped.pacing_gain());
    assert(gain_of(after) == gain_of(stepped));
    let bandwidth = after.max_bandwidth_bytes_per_second;
    let gain = gain_of(after);
    assert(0 <= bandwidth * gain) by (nonlinear_arith)
        requires
            0 <= bandwidth,
            0 <= gain,
    ;
}

/// A measured acknowledgment that finds Startup, and does not turn to ProbeRtt, adds
/// the acknowledged bytes to the window. Startup goes on unless the third round in a
/// row ends without the bandwidth a quarter above the best before.
#[verifier::spinoff_prover]
pub proof fn startup_ack_opens_the_window(
    before: BbrController,
    now: Instant,
    acked: AckedPacket,
    rtt: RttSample,
    bytes_in_flight: u32,
)
    requires
        before.well_formed(),
        before.mode == BbrMode::Startup,
        acked.bytes > 0,
        rtt.latest.nanos > 0,
        !filter_over(before, now),
        before.delivered + acked.bytes <= u64::MAX,
    ensures
        ({
            let after = before.after_ack(now, acked, rtt, bytes_in_flight);
            let bandwidth = after.max_bandwidth_bytes_per_second;
            let full = before.full_bandwidth_bytes_per_second;
            let judged = round_ends(before, acked.bytes) && !acked.app_limited
                && bytes_in_flight + acked.bytes >= vstd::math::max(
                before.congestion_window as int,
                least_window(before),
            );
            let grows = full == 0 || bandwidth * 1000 >= full * 1250;
            &&& after.congestion_window == vstd::math::max(
                vstd::math::min(before.congestion_window + acked.bytes, u32::MAX as int),
                least_window(before),
            )
            &&& !judged ==> {
                &&& after.mode == BbrMode::Startup
                &&& after.full_bandwidth_bytes_per_second == full
                &&& after.full_bandwidth_rounds == before.full_bandwidth_rounds
            }
            &&& judged && full + full / 4 + 1 <= u64::MAX && grows ==> {
                &&& after.mode == BbrMode::Startup
                &&& after.full_bandwidth_bytes_per_second == bandwidth
                &&& after.full_bandwidth_rounds == 0
            }
            &&& judged && full + full / 4 + 1 <= u64::MAX && !grows
                && before.full_bandwidth_rounds < u8::MAX ==> {
                &&& after.full_bandwidth_rounds == before.full_bandwidth_rounds + 1
                &&& after.full_bandwidth_bytes_per_second == full
                &&& after.mode == (if before.full_bandwidth_rounds >= 2 {
                    BbrMode::Drain
                } else {
                    BbrMode::Startup
                })
            }
        }),
{
    let after = before.after_ack(now, acked, rtt, bytes_in_flight);
    let app_limited = acked.app_limited || before.window_unfilled(acked.bytes, bytes_in_flight);
    let sample = BbrAckSample { bytes_acked: acked.bytes, rtt: rtt.latest, now };
    let counted = before.delivery_counted(acked.bytes);
    let entered = counted.probe_rtt_entered(now);
    let measured = entered.min_rtt_updated(rtt.latest, now).bandwidth_updated(
        acked.bytes,
        rtt.latest,
    );
    let stepped = measured.mode_step(sample, bytes_in_flight, app_limited);
    assert(after == stepped.paced());
    assert(entered.mode == BbrMode::Startup);
}

/// A measured acknowledgment that finds Drain sets the window to twice the pipe, and
/// ends Drain once no more than one pipe is in flight.
#[verifier::spinoff_prover]
pub proof fn drain_ack_holds_two_pipes(
    before: BbrController,
    now: Instant,
    acked: AckedPacket,
    rtt: RttSample,
    bytes_in_flight: u32,
)
    requires
        before.well_formed(),
        before.mode == BbrMode::Drain,
        acked.bytes > 0,
        rtt.latest.nanos > 0,
        !filter_over(before, now),
        pipe_fits(before.after_ack(now, acked, rtt, bytes_in_flight)),
    ensures
        ({
            let after = before.after_ack(now, acked, rtt, bytes_in_flight);
            let drained = bytes_in_flight <= share_of_pipe(after, 1000);
            &&& after.congestion_window == share_of_pipe(after, 2000)
            &&& after.mode == (if drained {
                BbrMode::ProbeBw
            } else {
                BbrMode::Drain
            })
            &&& drained ==> after.cycle_index == 0 && after.cycle_stamp == Some(now)
            &&& !drained ==> after.cycle_index == before.cycle_index && after.cycle_stamp
                == before.cycle_stamp
        }),
{
    let after = before.after_ack(now, acked, rtt, bytes_in_flight);
    let app_limited = acked.app_limited || before.window_unfilled(acked.bytes, bytes_in_flight);
    let sample = BbrAckSample { bytes_acked: acked.bytes, rtt: rtt.latest, now };
    let counted = before.delivery_counted(acked.bytes);
    let entered = counted.probe_rtt_entered(now);
    let measured = entered.min_rtt_updated(rtt.latest, now).bandwidth_updated(
        acked.bytes,
        rtt.latest,
    );
    let stepped = measured.mode_step(sample, bytes_in_flight, app_limited);
    assert(after == stepped.paced());
    assert(entered.mode == BbrMode::Drain);
    lemma_share(after);
    assert(after.spec_target_congestion_window(2000) == measured.spec_target_congestion_window(
        2000,
    ));
    assert(after.spec_target_congestion_window(1000) == measured.spec_target_congestion_window(
        1000,
    ));
}

/// A measured acknowledgment that finds ProbeBw never lowers the window, holds at
/// least two pipes, and turns to the next of the eight gains once a shortest round
/// trip has passed.
#[verifier::spinoff_prover]
pub proof fn probe_bw_ack_cycles(
    before: BbrController,
    now: Instant,
    acked: AckedPacket,
    rtt: RttSample,
    bytes_in_flight: u32,
)
    requires
        before.well_formed(),
        before.mode == BbrMode::ProbeBw,
        acked.bytes > 0,
        rtt.latest.nanos > 0,
        !filter_over(before, now),
        pipe_fits(before.after_ack(now, acked, rtt, bytes_in_flight)),
    ensures
        ({
            let after = before.after_ack(now, acked, rtt, bytes_in_flight);
            let over = before.cycle_stamp matches Some(stamp) ==> now.nanos >= stamp.nanos
                + after.min_rtt->0.nanos || after.min_rtt->0.nanos == 0;
            &&& after.mode == BbrMode::ProbeBw
            &&& after.congestion_window == vstd::math::max(
                before.congestion_window as int,
                share_of_pipe(after, 2000),
            )
            &&& over ==> after.cycle_index == (if before.cycle_index == 7 {
                0
            } else {
                before.cycle_index + 1
            }) && after.cycle_stamp == Some(now)
            &&& !over ==> after.cycle_index == before.cycle_index && after.cycle_stamp
                == before.cycle_stamp
        }),
{
    let after = before.after_ack(now, acked, rtt, bytes_in_flight);
    let app_limited = acked.app_limited || before.window_unfilled(acked.bytes, bytes_in_flight);
    let sample = BbrAckSample { bytes_acked: acked.bytes, rtt: rtt.latest, now };
    let counted = before.delivery_counted(acked.bytes);
    let entered = counted.probe_rtt_entered(now);
    let measured = entered.min_rtt_updated(rtt.latest, now).bandwidth_updated(
        acked.bytes,
        rtt.latest,
    );
    let stepped = measured.mode_step(sample, bytes_in_flight, app_limited);
    assert(after == stepped.paced());
    assert(entered.mode == BbrMode::ProbeBw);
    lemma_share(after);
    assert(after.spec_target_congestion_window(2000) == measured.spec_target_congestion_window(
        2000,
    ));
}

/// Ten seconds after the shortest round trip was measured, the next measured
/// acknowledgment turns to ProbeRtt: the window shrinks to the least, and 200 ms
/// start once no more than that is in flight.
#[verifier::spinoff_prover]
pub proof fn old_estimate_turns_to_probe_rtt(
    before: BbrController,
    now: Instant,
    acked: AckedPacket,
    rtt: RttSample,
    bytes_in_flight: u32,
)
    requires
        before.well_formed(),
        before.mode != BbrMode::ProbeRtt,
        acked.bytes > 0,
        rtt.latest.nanos > 0,
        filter_over(before, now),
        before.delivered + acked.bytes <= u64::MAX,
        now.nanos + 200_000_000 <= u128::MAX,
    ensures
        ({
            let after = before.after_ack(now, acked, rtt, bytes_in_flight);
            &&& after.mode == BbrMode::ProbeRtt
            &&& after.prior_mode == before.mode
            &&& after.congestion_window == least_window(before)
            &&& after.probe_rtt_done_stamp == (if bytes_in_flight <= least_window(before) {
                Some(Instant { nanos: (now.nanos + 200_000_000) as u128 })
            } else {
                None
            })
            &&& after.probe_rtt_round_done == round_ends(before, acked.bytes)
        }),
{
    let after = before.after_ack(now, acked, rtt, bytes_in_flight);
    let app_limited = acked.app_limited || before.window_unfilled(acked.bytes, bytes_in_flight);
    let sample = BbrAckSample { bytes_acked: acked.bytes, rtt: rtt.latest, now };
    let counted = before.delivery_counted(acked.bytes);
    let entered = counted.probe_rtt_entered(now);
    let measured = entered.min_rtt_updated(rtt.latest, now).bandwidth_updated(
        acked.bytes,
        rtt.latest,
    );
    let stepped = measured.mode_step(sample, bytes_in_flight, app_limited);
    assert(after == stepped.paced());
    assert(entered.mode == BbrMode::ProbeRtt);
}

/// ProbeRtt keeps the least window until its 200 ms are over and a round has ended
/// since; then it goes back to where it came from, with two pipes as the window.
#[verifier::spinoff_prover]
pub proof fn probe_rtt_ack_waits_and_returns(
    before: BbrController,
    now: Instant,
    acked: AckedPacket,
    rtt: RttSample,
    bytes_in_flight: u32,
)
    requires
        before.well_formed(),
        before.mode == BbrMode::ProbeRtt,
        acked.bytes > 0,
        rtt.latest.nanos > 0,
        before.delivered + acked.bytes <= u64::MAX,
        now.nanos + 200_000_000 <= u128::MAX,
        pipe_fits(before.after_ack(now, acked, rtt, bytes_in_flight)),
    ensures
        ({
            let after = before.after_ack(now, acked, rtt, bytes_in_flight);
            let begins = before.probe_rtt_done_stamp is None && bytes_in_flight <= least_window(before);
            let rounded = round_ends(before, acked.bytes) || (before.probe_rtt_round_done && !begins);
            let over = rounded && (before.probe_rtt_done_stamp matches Some(done) && now.nanos
                >= done.nanos);
            let back = if before.prior_mode == BbrMode::ProbeRtt {
                BbrMode::ProbeBw
            } else {
                before.prior_mode
            };
            &&& after.mode == (if over {
                back
            } else {
                BbrMode::ProbeRtt
            })
            &&& after.congestion_window == (if over {
                share_of_pipe(after, 2000)
            } else {
                least_window(before)
            })
            &&& after.probe_rtt_done_stamp == (if over {
                None
            } else if begins {
                Some(Instant { nanos: (now.nanos + 200_000_000) as u128 })
            } else {
                before.probe_rtt_done_stamp
            })
            &&& after.probe_rtt_round_done == (rounded && !over)
            &&& over && back == BbrMode::ProbeBw ==> after.cycle_index == 0 && after.cycle_stamp
                == Some(now)
            &&& !(over && back == BbrMode::ProbeBw) ==> after.cycle_index == before.cycle_index
                && after.cycle_stamp == before.cycle_stamp
        }),
{
    let after = before.after_ack(now, acked, rtt, bytes_in_flight);
    let app_limited = acked.app_limited || before.window_unfilled(acked.bytes, bytes_in_flight);
    let sample = BbrAckSample { bytes_acked: acked.bytes, rtt: rtt.latest, now };
    let counted = before.delivery_counted(acked.bytes);
    let entered = counted.probe_rtt_entered(now);
    let measured = entered.min_rtt_updated(rtt.latest, now).bandwidth_updated(
        acked.bytes,
        rtt.latest,
    );
    let stepped = measured.mode_step(sample, bytes_in_flight, app_limited);
    assert(after == stepped.paced());
    assert(entered == counted);
    lemma_share(after);
    assert(after.spec_target_congestion_window(2000) == measured.spec_target_congestion_window(
        2000,
    ));
}

/// An acknowledgment without a round trip counts its bytes and may end the round; one
/// without bytes does nothing.
pub proof fn unmeasured_ack_only_counts(
    before: BbrController,
    now: Instant,
    acked: AckedPacket,
    rtt: RttSample,
    bytes_in_flight: u32,
)
    requires
        acked.bytes == 0 || rtt.latest.nanos == 0,
        before.delivered + acked.bytes <= u64::MAX,
    ensures
        before.after_ack(now, acked, rtt, bytes_in_flight) == (if acked.bytes == 0 {
            before
        } else {
            BbrController {
                delivered: (before.delivered + acked.bytes) as u64,
                round_start: round_ends(before, acked.bytes),
                round_end_marker_active: before.round_end_marker_active && !round_ends(
                    before,
                    acked.bytes,
                ),
                ..before
            }
        }),
{
}

/// Over a run of measured acknowledgments in Startup, within the ten seconds of the
/// round trip filter, the window is the one at the start plus all the bytes.
pub proof fn startup_window_adds_up(
    before: BbrController,
    acks: Seq<(Instant, AckedPacket, RttSample, u32)>,
)
    requires
        before.well_formed(),
        before.congestion_window >= least_window(before),
        before.congestion_window + bbr_laws::total_delivered(acks) <= u32::MAX,
        before.delivered + bbr_laws::total_delivered(acks) <= u64::MAX,
        forall|i: int|
            #![trigger acks[i]]
            0 <= i < acks.len() ==> {
                let state = bbr_laws::after_acks(before, acks.take(i));
                &&& acks[i].1.bytes > 0
                &&& acks[i].2.latest.nanos > 0
                &&& state.mode == BbrMode::Startup
                &&& !filter_over(state, acks[i].0)
            },
    ensures
        ({
            let after = bbr_laws::after_acks(before, acks);
            &&& after.congestion_window == before.congestion_window + bbr_laws::total_delivered(
                acks,
            )
            &&& after.max_datagram_size == before.max_datagram_size
            &&& after.delivered == before.delivered + bbr_laws::total_delivered(acks)
            &&& after.well_formed()
        }),
    decreases acks.len(),
{
    if acks.len() > 0 {
        let last = acks.len() - 1;
        let prior = acks.drop_last();
        bbr_laws::acks_add_up(before, prior);
        assert(prior =~= acks.take(last));
        let ack = acks[last];
        assert forall|i: int|
            #![trigger prior[i]]
            0 <= i < prior.len() implies ({
                let state = bbr_laws::after_acks(before, prior.take(i));
                &&& prior[i].1.bytes > 0
                &&& prior[i].2.latest.nanos > 0
                &&& state.mode == BbrMode::Startup
                &&& !filter_over(state, prior[i].0)
            }) by {
            assert(prior[i] == acks[i]);
            assert(prior.take(i) =~= acks.take(i));
        }
        startup_window_adds_up(before, prior);
        let state = bbr_laws::after_acks(before, prior);
        startup_ack_opens_the_window(state, ack.0, ack.1, ack.2, ack.3);
        measured_ack_updates_the_estimates(state, ack.0, ack.1, ack.2, ack.3);
    }
}

/// A send with nothing in flight, or the first since a round ended, marks the end of
/// the next round behind everything in flight; another send marks nothing.
pub proof fn send_marks_the_round(
    before: BbrController,
    packet_number: PacketNumber,
    bytes_sent: u32,
    bytes_in_flight: u32,
    now: Instant,
)
    requires
        before.delivered + bytes_in_flight + bytes_sent <= u64::MAX,
    ensures
        ({
            let after = before.after_packet_sent(packet_number, bytes_sent, bytes_in_flight, now);
            if bytes_sent > 0 && (bytes_in_flight == 0 || before.round_start) {
                after == (BbrController {
                    next_round_delivered: (before.delivered + bytes_in_flight + bytes_sent) as u64,
                    round_end_marker_active: true,
                    round_start: false,
                    ..before
                })
            } else {
                after == before
            }
        }),
{
}

/// A loss takes the lost bytes, and at least one datagram, off the window, down to
/// the least; it changes nothing else, and without bytes nothing at all.
pub proof fn loss_takes_the_lost_bytes(
    before: BbrController,
    now: Instant,
    lost: LostPacket,
    persistent: bool,
)
    requires
        before.well_formed(),
    ensures
        ({
            let after = before.after_loss(now, lost, persistent);
            let taken = vstd::math::max(lost.bytes as int, before.max_datagram_size as int);
            &&& after == (BbrController { congestion_window: after.congestion_window, ..before })
            &&& lost.bytes > 0 ==> after.congestion_window == vstd::math::max(
                before.congestion_window - taken,
                least_window(before),
            )
            &&& lost.bytes == 0 ==> after == before
        }),
{
}

/// A new datagram size is taken over, the default one for zero, and the window grows
/// to four of them where it was less. Nothing else changes, and the end of a run of
/// acknowledgments changes nothing.
pub proof fn datagram_size_is_taken_over(
    before: BbrController,
    max_datagram_size: u32,
    now: Instant,
    bytes_in_flight: u32,
    app_limited: bool,
    largest: PacketNumber,
)
    ensures
        ({
            let after = before.after_mtu_update(max_datagram_size);
            let size = if max_datagram_size == 0 {
                1460
            } else {
                max_datagram_size as int
            };
            &&& after.max_datagram_size == size
            &&& after.congestion_window == vstd::math::max(
                before.congestion_window as int,
                vstd::math::min(4 * size, u32::MAX as int),
            )
            &&& after == (BbrController {
                max_datagram_size: after.max_datagram_size,
                congestion_window: after.congestion_window,
                ..before
            })
        }),
        before.after_end_acks(now, bytes_in_flight, app_limited, largest) == before,
{
}

/// The delay of a send is the least time in which the pacing rate covers its bytes.
pub proof fn delay_covers_the_bytes(controller: BbrController, pending_bytes: u32)
    requires
        controller.well_formed(),
    ensures
        ({
            let rate = controller.pacing_rate_bytes_per_second;
            let delay = controller.spec_next_send_delay(pending_bytes);
            &&& (delay is Some) == (rate is Some && rate->0 > 0 && pending_bytes > 0)
            &&& delay matches Some(span) ==> {
                &&& span.nanos * rate->0 >= pending_bytes * 1_000_000_000
                &&& (span.nanos - 1) * rate->0 < pending_bytes * 1_000_000_000
            }
        }),
{
    if let Some(rate) = controller.pacing_rate_bytes_per_second {
        if rate > 0 && pending_bytes > 0 {
            let work = pending_bytes * 1_000_000_000;
            let rate = rate as int;
            let span = (work + rate - 1) / rate;
            assert(span * rate >= work && (span - 1) * rate < work && 0 <= span <= work)
                by (nonlinear_arith)
                requires
                    span == (work + rate - 1) / rate,
                    rate > 0,
                    work > 0,
            ;
        }
    }
}

/// A new controller starts in Startup with ten datagrams and no estimate; the window
/// in force is never less than four.
pub proof fn new_controller_has_ten_datagrams(max_datagram_size: u32)
    ensures
        ({
            let fresh = BbrController::initial(max_datagram_size);
            let size = if max_datagram_size == 0 {
                1460
            } else {
                max_datagram_size as int
            };
            &&& fresh.max_datagram_size == size
            &&& fresh.mode == BbrMode::Startup
            &&& fresh.spec_metrics().congestion_window == vstd::math::min(
                10 * size,
                u32::MAX as int,
            )
            &&& fresh.spec_metrics().pacing_rate_bytes_per_second is None
            &&& fresh.spec_metrics().delivered == 0
            &&& fresh.spec_metrics().max_bandwidth_bytes_per_second == 0
            &&& fresh.spec_metrics().min_rtt is None
            &&& !fresh.round_end_marker_active && fresh.full_bandwidth_bytes_per_second == 0
        }),
{
}

/// What a controller tells of itself.
pub proof fn metrics_are_the_estimates(controller: BbrController)
    requires
        controller.well_formed(),
    ensures
        controller.spec_metrics().congestion_window == vstd::math::max(
            controller.congestion_window as int,
            least_window(controller),
        ),
        controller.spec_metrics().pacing_rate_bytes_per_second
            == controller.pacing_rate_bytes_per_second,
        controller.spec_metrics().delivered == controller.delivered,
        controller.spec_metrics().max_bandwidth_bytes_per_second
            == controller.max_bandwidth_bytes_per_second,
        controller.spec_metrics().min_rtt == controller.min_rtt,
        controller.spec_max_datagram_size() == controller.max_datagram_size,
{
}

} // verus!
