//! What holds of BBR over runs of calls.
use vstd::prelude::*;

use crate::arith;
use crate::congestion::bbr;
use crate::congestion::bbr::{
    BbrAckSample, BbrController, BbrMode, BBR_DRAIN_GAIN_MILLI, BBR_HIGH_GAIN_MILLI,
};
use crate::congestion::controller::CongestionController;
use crate::congestion::types::{AckedPacket, LostPacket, PacketNumber, RttSample};
use crate::time::Instant;

verus! {

/// The controller after a run of acknowledgments, each with its time, the packet,
/// the round trip, and what was in flight.
pub open spec fn after_acks(
    controller: BbrController,
    acks: Seq<(Instant, AckedPacket, RttSample, u32)>,
) -> BbrController
    decreases acks.len(),
{
    if acks.len() == 0 {
        controller
    } else {
        let ack = acks.last();
        after_acks(controller, acks.drop_last()).after_ack(ack.0, ack.1, ack.2, ack.3)
    }
}

pub open spec fn total_delivered(acks: Seq<(Instant, AckedPacket, RttSample, u32)>) -> int
    decreases acks.len(),
{
    if acks.len() == 0 {
        0
    } else {
        total_delivered(acks.drop_last()) + acks.last().1.bytes
    }
}

/// The highest rate among the acknowledgments that measure one.
pub open spec fn best_rate(acks: Seq<(Instant, AckedPacket, RttSample, u32)>) -> int
    decreases acks.len(),
{
    if acks.len() == 0 {
        0
    } else {
        let ack = acks.last();
        let before = best_rate(acks.drop_last());
        if ack.1.bytes != 0 && ack.2.latest.nanos != 0 {
            vstd::math::max(before, bbr::delivery_rate(ack.1.bytes, ack.2.latest) as int)
        } else {
            before
        }
    }
}

/// Over any run of acknowledgments the delivered bytes add up, and the bandwidth is
/// the highest that was measured.
pub proof fn acks_add_up(
    controller: BbrController,
    acks: Seq<(Instant, AckedPacket, RttSample, u32)>,
)
    ensures
        total_delivered(acks) >= 0,
        best_rate(acks) >= 0,
        after_acks(controller, acks).delivered == arith::saturate_u64(
            controller.delivered + total_delivered(acks),
        ),
        after_acks(controller, acks).max_bandwidth_bytes_per_second == vstd::math::max(
            controller.max_bandwidth_bytes_per_second as int,
            best_rate(acks),
        ),
    decreases acks.len(),
{
    if acks.len() > 0 {
        acks_add_up(controller, acks.drop_last());
        let ack = acks.last();
        let before = after_acks(controller, acks.drop_last());
        lemma_ack_measures(before, ack.0, ack.1, ack.2, ack.3);
    }
}

proof fn lemma_ack_measures(
    before: BbrController,
    now: Instant,
    acked: AckedPacket,
    rtt: RttSample,
    bytes_in_flight: u32,
)
    ensures
        ({
            let after = before.after_ack(now, acked, rtt, bytes_in_flight);
            &&& after.delivered == arith::saturate_u64(before.delivered + acked.bytes)
            &&& after.max_bandwidth_bytes_per_second == (if acked.bytes != 0 && rtt.latest.nanos
                != 0 {
                vstd::math::max(
                    before.max_bandwidth_bytes_per_second as int,
                    bbr::delivery_rate(acked.bytes, rtt.latest) as int,
                )
            } else {
                before.max_bandwidth_bytes_per_second as int
            })
        }),
{
}

/// Sends, ends of runs, losses and new datagram sizes change neither.
pub proof fn other_calls_measure_nothing(
    controller: BbrController,
    now: Instant,
    packet_number: PacketNumber,
    bytes_sent: u32,
    bytes_in_flight: u32,
    app_limited: bool,
    lost: LostPacket,
    persistent: bool,
    max_datagram_size: u32,
)
    ensures
        ({
            let sent = controller.after_packet_sent(
                packet_number,
                bytes_sent,
                bytes_in_flight,
                now,
            );
            let ended = controller.after_end_acks(
                now,
                bytes_in_flight,
                app_limited,
                packet_number,
            );
            let reduced = controller.after_loss(now, lost, persistent);
            let resized = controller.after_mtu_update(max_datagram_size);
            let bandwidth = controller.max_bandwidth_bytes_per_second;
            &&& sent.delivered == controller.delivered
            &&& sent.max_bandwidth_bytes_per_second == bandwidth
            &&& ended.delivered == controller.delivered
            &&& ended.max_bandwidth_bytes_per_second == bandwidth
            &&& reduced.delivered == controller.delivered
            &&& reduced.max_bandwidth_bytes_per_second == bandwidth
            &&& resized.delivered == controller.delivered
            &&& resized.max_bandwidth_bytes_per_second == bandwidth
        }),
{
}

/// Any call of the controller.
pub open spec fn called(before: BbrController, after: BbrController) -> bool {
    ||| exists|now: Instant, acked: AckedPacket, rtt: RttSample, bytes_in_flight: u32|
        after == #[trigger] before.after_ack(now, acked, rtt, bytes_in_flight)
    ||| bbr::unmeasured_call(before, after)
}

/// A run of calls on a new controller.
pub open spec fn run_of_calls(states: Seq<BbrController>, max_datagram_size: u32) -> bool {
    &&& states.len() > 0
    &&& states[0] == BbrController::initial(max_datagram_size)
    &&& forall|i: int| 0 <= i < states.len() - 1 ==> called(#[trigger] states[i], states[i + 1])
}

/// The gains that pace: those of Startup and Drain, the three phases of ProbeBw,
/// and that of ProbeRtt.
pub open spec fn is_pacing_gain(gain_milli: u32) -> bool {
    ||| gain_milli == BBR_HIGH_GAIN_MILLI
    ||| gain_milli == BBR_DRAIN_GAIN_MILLI
    ||| gain_milli == 1250
    ||| gain_milli == 750
    ||| gain_milli == 1000
}

/// The rate that a gain makes of a bandwidth.
pub open spec fn paced_rate(bandwidth: u64, gain_milli: u32) -> u64 {
    arith::saturate_u64(vstd::math::max((bandwidth * gain_milli) / 1000, 1))
}

/// There is no pacing rate before there is a bandwidth; from then on the rate is one
/// of the gains applied to it.
pub open spec fn paced_by_a_gain(controller: BbrController) -> bool {
    match controller.pacing_rate_bytes_per_second {
        Some(rate) => controller.max_bandwidth_bytes_per_second > 0 && exists|gain_milli: u32|
            is_pacing_gain(gain_milli) && rate == #[trigger] paced_rate(
                controller.max_bandwidth_bytes_per_second,
                gain_milli,
            ),
        None => controller.max_bandwidth_bytes_per_second == 0,
    }
}

proof fn lemma_ack_paces(
    before: BbrController,
    now: Instant,
    acked: AckedPacket,
    rtt: RttSample,
    bytes_in_flight: u32,
)
    requires
        paced_by_a_gain(before),
    ensures
        paced_by_a_gain(before.after_ack(now, acked, rtt, bytes_in_flight)),
{
    let after = before.after_ack(now, acked, rtt, bytes_in_flight);
    if acked.bytes != 0 && rtt.latest.nanos != 0 {
        let app_limited = acked.app_limited || before.window_unfilled(
            acked.bytes,
            bytes_in_flight,
        );
        let sample = BbrAckSample { bytes_acked: acked.bytes, rtt: rtt.latest, now };
        let measured = before.delivery_counted(acked.bytes).probe_rtt_entered(now).min_rtt_updated(
            rtt.latest,
            now,
        ).bandwidth_updated(acked.bytes, rtt.latest);
        let stepped = measured.mode_step(sample, bytes_in_flight, app_limited);
        assert(after == stepped.paced());
        assert(stepped.max_bandwidth_bytes_per_second == measured.max_bandwidth_bytes_per_second);
        assert(stepped.pacing_rate_bytes_per_second == before.pacing_rate_bytes_per_second);
        if stepped.max_bandwidth_bytes_per_second > 0 {
            assert(is_pacing_gain(stepped.pacing_gain()));
            assert(after.pacing_rate_bytes_per_second == Some(
                paced_rate(after.max_bandwidth_bytes_per_second, stepped.pacing_gain()),
            ));
        }
    } else {
        assert(after.pacing_rate_bytes_per_second == before.pacing_rate_bytes_per_second);
        assert(after.max_bandwidth_bytes_per_second == before.max_bandwidth_bytes_per_second);
    }
}

proof fn lemma_unmeasured_call_paces(before: BbrController, after: BbrController)
    requires
        bbr::unmeasured_call(before, after),
    ensures
        after.pacing_rate_bytes_per_second == before.pacing_rate_bytes_per_second,
        after.max_bandwidth_bytes_per_second == before.max_bandwidth_bytes_per_second,
        after.mode == before.mode,
        after.prior_mode == before.prior_mode,
{
}

/// Through any run of calls the window in force never falls below the minimum, and
/// the pacing rate is one of the gains applied to the bandwidth.
pub proof fn run_keeps_floor_and_gains(
    states: Seq<BbrController>,
    max_datagram_size: u32,
    last: int,
)
    requires
        run_of_calls(states, max_datagram_size),
        0 <= last < states.len(),
    ensures
        states[last].window() >= bbr::spec_min_congestion_window(states[last].max_datagram_size),
        paced_by_a_gain(states[last]),
    decreases last,
{
    if last > 0 {
        run_keeps_floor_and_gains(states, max_datagram_size, last - 1);
        let before = states[last - 1];
        let after = states[last - 1 + 1];
        assert(called(before, after));
        if bbr::unmeasured_call(before, after) {
            lemma_unmeasured_call_paces(before, after);
        } else {
            let (now, acked, rtt, bytes_in_flight) = choose|
                now: Instant,
                acked: AckedPacket,
                rtt: RttSample,
                bytes_in_flight: u32,
            |
                after == #[trigger] before.after_ack(now, acked, rtt, bytes_in_flight);
            lemma_ack_paces(before, now, acked, rtt, bytes_in_flight);
        }
    }
}

/// The mode that ProbeRtt goes back to.
pub open spec fn mode_after_probe_rtt(controller: BbrController) -> BbrMode {
    if controller.prior_mode == BbrMode::ProbeRtt {
        BbrMode::ProbeBw
    } else {
        controller.prior_mode
    }
}

/// The moves that a call can make: on to the next mode, into ProbeRtt from any
/// other, and from ProbeRtt back to where it was entered from.
pub open spec fn allowed_move(before: BbrController, after: BbrController) -> bool {
    ||| after.mode == before.mode
    ||| before.mode == BbrMode::Startup && after.mode == BbrMode::Drain
    ||| before.mode == BbrMode::Drain && after.mode == BbrMode::ProbeBw
    ||| before.mode != BbrMode::ProbeRtt && after.mode == BbrMode::ProbeRtt && after.prior_mode
        == before.mode
    ||| before.mode == BbrMode::ProbeRtt && after.mode == mode_after_probe_rtt(before)
}

proof fn lemma_ack_moves(
    before: BbrController,
    now: Instant,
    acked: AckedPacket,
    rtt: RttSample,
    bytes_in_flight: u32,
)
    ensures
        ({
            let after = before.after_ack(now, acked, rtt, bytes_in_flight);
            &&& allowed_move(before, after)
            &&& after.prior_mode == before.prior_mode || after.prior_mode == before.mode
            &&& after.prior_mode != before.prior_mode ==> before.mode != BbrMode::ProbeRtt
        }),
{
    if acked.bytes != 0 && rtt.latest.nanos != 0 {
        let app_limited = acked.app_limited || before.window_unfilled(
            acked.bytes,
            bytes_in_flight,
        );
        let sample = BbrAckSample { bytes_acked: acked.bytes, rtt: rtt.latest, now };
        let entered = before.delivery_counted(acked.bytes).probe_rtt_entered(now);
        let measured = entered.min_rtt_updated(rtt.latest, now).bandwidth_updated(
            acked.bytes,
            rtt.latest,
        );
        assert(measured.mode == entered.mode && measured.prior_mode == entered.prior_mode);
        let stepped = measured.mode_step(sample, bytes_in_flight, app_limited);
        assert(stepped.prior_mode == measured.prior_mode);
        assert(before.after_ack(now, acked, rtt, bytes_in_flight) == stepped.paced());
    }
}

/// Every call moves between the modes as BBR allows.
pub proof fn calls_move_as_allowed(before: BbrController, after: BbrController)
    requires
        called(before, after),
    ensures
        allowed_move(before, after),
        after.prior_mode == before.prior_mode || (before.mode != BbrMode::ProbeRtt
            && after.prior_mode == before.mode),
{
    if bbr::unmeasured_call(before, after) {
        lemma_unmeasured_call_paces(before, after);
    } else {
        let (now, acked, rtt, bytes_in_flight) = choose|
            now: Instant,
            acked: AckedPacket,
            rtt: RttSample,
            bytes_in_flight: u32,
        |
            after == #[trigger] before.after_ack(now, acked, rtt, bytes_in_flight);
        lemma_ack_moves(before, now, acked, rtt, bytes_in_flight);
    }
}

/// Startup is over, and ProbeRtt does not lead back to it.
pub open spec fn past_startup(controller: BbrController) -> bool {
    controller.mode != BbrMode::Startup && (controller.mode == BbrMode::ProbeRtt
        ==> controller.prior_mode != BbrMode::Startup)
}

/// Once it is over, Startup never comes back, whatever is called.
pub proof fn startup_never_comes_back(states: Seq<BbrController>, last: int)
    requires
        0 <= last < states.len(),
        past_startup(states[0]),
        forall|i: int| 0 <= i < last ==> called(#[trigger] states[i], states[i + 1]),
    ensures
        past_startup(states[last]),
    decreases last,
{
    if last > 0 {
        startup_never_comes_back(states, last - 1);
        calls_move_as_allowed(states[last - 1], states[last - 1 + 1]);
    }
}

} // verus!
