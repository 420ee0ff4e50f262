//! What holds of TCP's congestion control over runs of calls.
use vstd::prelude::*;

use crate::arith;
use crate::tcp::congestion;
use crate::tcp::congestion::{
    TcpBbrMode, TcpBbrState, TcpCongestionAckSample, TcpCongestionControl, TcpCongestionState,
    TCP_BBR_DRAIN_GAIN_MILLI, TCP_BBR_HIGH_GAIN_MILLI,
};

verus! {

/// The highest rate among the acknowledgments of at least one byte.
pub open spec fn best_rate(samples: Seq<TcpCongestionAckSample>) -> int
    decreases samples.len(),
{
    if samples.len() == 0 {
        0
    } else {
        let sample = samples.last();
        let before = best_rate(samples.drop_last());
        if sample.bytes_acked != 0 {
            vstd::math::max(
                before,
                congestion::delivery_rate(sample.bytes_acked, sample.rtt) as int,
            )
        } else {
            before
        }
    }
}

proof fn lemma_ack_measures(before: TcpBbrState, sample: TcpCongestionAckSample)
    ensures
        ({
            let after = before.after_ack(sample);
            &&& after.delivered == arith::saturate_u64(before.delivered + sample.bytes_acked)
            &&& after.max_bandwidth_bytes_per_second == (if sample.bytes_acked != 0 {
                vstd::math::max(
                    before.max_bandwidth_bytes_per_second as int,
                    congestion::delivery_rate(sample.bytes_acked, sample.rtt) as int,
                )
            } else {
                before.max_bandwidth_bytes_per_second as int
            })
        }),
{
}

/// Over any run of acknowledgments the delivered bytes add up, and the bandwidth is
/// the highest that was measured.
pub proof fn acks_add_up(state: TcpCongestionState, samples: Seq<TcpCongestionAckSample>)
    ensures
        congestion::total_acked(samples) >= 0,
        best_rate(samples) >= 0,
        congestion::after_acks(state, samples).spec_delivered() == arith::saturate_u64(
            state.spec_delivered() + congestion::total_acked(samples),
        ),
        congestion::after_acks(state, samples).spec_max_bandwidth() == vstd::math::max(
            state.spec_max_bandwidth() as int,
            best_rate(samples),
        ),
    decreases samples.len(),
{
    if samples.len() > 0 {
        acks_add_up(state, samples.drop_last());
        let before = congestion::after_acks(state, samples.drop_last());
        lemma_ack_measures(before.bbr(), samples.last());
    }
}

/// Sends and losses change neither.
pub proof fn other_calls_measure_nothing(
    state: TcpCongestionState,
    bytes_sent: u32,
    bytes_in_flight: u32,
    bytes_lost: u32,
)
    ensures
        ({
            let sent = state.after_packet_sent(bytes_sent, bytes_in_flight);
            let reduced = state.after_loss(bytes_lost);
            &&& sent.spec_delivered() == state.spec_delivered()
            &&& sent.spec_max_bandwidth() == state.spec_max_bandwidth()
            &&& reduced.spec_delivered() == state.spec_delivered()
            &&& reduced.spec_max_bandwidth() == state.spec_max_bandwidth()
        }),
{
}

/// Any call of the controller.
pub open spec fn called(before: TcpBbrState, after: TcpBbrState) -> bool {
    ||| exists|sample: TcpCongestionAckSample| after == #[trigger] before.after_ack(sample)
    ||| exists|bytes_sent: u32, bytes_in_flight: u32|
        after == #[trigger] before.after_packet_sent(bytes_sent, bytes_in_flight)
    ||| exists|bytes_lost: u32| after == #[trigger] before.after_loss(bytes_lost)
}

/// A run of calls on a new controller.
pub open spec fn run_of_calls(states: Seq<TcpBbrState>, max_segment_size: u32) -> bool {
    &&& states.len() > 0
    &&& states[0] == TcpBbrState::initial(max_segment_size)
    &&& forall|i: int| 0 <= i < states.len() - 1 ==> called(#[trigger] states[i], states[i + 1])
}

/// The gains that pace: those of Startup and Drain, the three phases of ProbeBw,
/// and that of ProbeRtt.
pub open spec fn is_pacing_gain(gain_milli: u32) -> bool {
    ||| gain_milli == TCP_BBR_HIGH_GAIN_MILLI
    ||| gain_milli == TCP_BBR_DRAIN_GAIN_MILLI
    ||| gain_milli == 1250
    ||| gain_milli == 750
    ||| gain_milli == 1000
}

/// The rate that a gain makes of a bandwidth.
pub open spec fn paced_rate(bandwidth: u64, gain_milli: u32) -> u64 {
    arith::saturate_u64(vstd::math::max((bandwidth * gain_milli) / 1000, 1))
}

/// There is no pacing rate before there is a bandwidth; from then on the rate is one
/// of the gains applied to it.
pub open spec fn paced_by_a_gain(state: TcpBbrState) -> bool {
    match state.pacing_rate_bytes_per_second {
        Some(rate) => state.max_bandwidth_bytes_per_second > 0 && exists|gain_milli: u32|
            is_pacing_gain(gain_milli) && rate == #[trigger] paced_rate(
                state.max_bandwidth_bytes_per_second,
                gain_milli,
            ),
        None => state.max_bandwidth_bytes_per_second == 0,
    }
}

proof fn lemma_ack_paces(before: TcpBbrState, sample: TcpCongestionAckSample)
    requires
        paced_by_a_gain(before),
    ensures
        paced_by_a_gain(before.after_ack(sample)),
{
    if sample.bytes_acked != 0 {
        let after = before.after_ack(sample);
        let measured = before.delivery_counted(sample.bytes_acked).probe_rtt_entered(
            sample.now,
        ).min_rtt_updated(sample.rtt, sample.now).bandwidth_updated(
            sample.bytes_acked,
            sample.rtt,
        );
        let stepped = measured.mode_step(sample);
        assert(after == stepped.paced());
        assert(stepped.max_bandwidth_bytes_per_second == measured.max_bandwidth_bytes_per_second);
        assert(stepped.pacing_rate_bytes_per_second == before.pacing_rate_bytes_per_second);
        if stepped.max_bandwidth_bytes_per_second > 0 {
            assert(is_pacing_gain(stepped.pacing_gain()));
            assert(after.pacing_rate_bytes_per_second == Some(
                paced_rate(after.max_bandwidth_bytes_per_second, stepped.pacing_gain()),
            ));
        }
    }
}

/// Through any run of calls the window in force never falls below the minimum, and
/// the pacing rate is one of the gains applied to the bandwidth.
pub proof fn run_keeps_floor_and_gains(
    states: Seq<TcpBbrState>,
    max_segment_size: u32,
    last: int,
)
    requires
        run_of_calls(states, max_segment_size),
        0 <= last < states.len(),
    ensures
        states[last].spec_congestion_window() >= congestion::spec_min_congestion_window(
            max_segment_size,
        ),
        states[last].max_segment_size == states[0].max_segment_size,
        paced_by_a_gain(states[last]),
    decreases last,
{
    if last > 0 {
        run_keeps_floor_and_gains(states, max_segment_size, last - 1);
        let before = states[last - 1];
        let after = states[last - 1 + 1];
        assert(called(before, after));
        if exists|sample: TcpCongestionAckSample| after == #[trigger] before.after_ack(sample) {
            let sample = choose|sample: TcpCongestionAckSample|
                after == #[trigger] before.after_ack(sample);
            lemma_ack_paces(before, sample);
        }
    }
}

/// The mode that ProbeRtt goes back to.
pub open spec fn mode_after_probe_rtt(state: TcpBbrState) -> TcpBbrMode {
    if state.prior_mode == TcpBbrMode::ProbeRtt {
        TcpBbrMode::ProbeBw
    } else {
        state.prior_mode
    }
}

/// The moves that a call can make: on to the next mode, into ProbeRtt from any
/// other, and from ProbeRtt back to where it was entered from.
pub open spec fn allowed_move(before: TcpBbrState, after: TcpBbrState) -> bool {
    ||| after.mode == before.mode
    ||| before.mode == TcpBbrMode::Startup && after.mode == TcpBbrMode::Drain
    ||| before.mode == TcpBbrMode::Drain && after.mode == TcpBbrMode::ProbeBw
    ||| before.mode != TcpBbrMode::ProbeRtt && after.mode == TcpBbrMode::ProbeRtt
        && after.prior_mode == before.mode
    ||| before.mode == TcpBbrMode::ProbeRtt && after.mode == mode_after_probe_rtt(before)
}

proof fn lemma_ack_moves(before: TcpBbrState, sample: TcpCongestionAckSample)
    ensures
        allowed_move(before, before.after_ack(sample)),
        before.after_ack(sample).prior_mode == before.prior_mode || (before.mode
            != TcpBbrMode::ProbeRtt && before.after_ack(sample).prior_mode == before.mode),
{
    if sample.bytes_acked != 0 {
        let entered = before.delivery_counted(sample.bytes_acked).probe_rtt_entered(sample.now);
        let measured = entered.min_rtt_updated(sample.rtt, sample.now).bandwidth_updated(
            sample.bytes_acked,
            sample.rtt,
        );
        assert(measured.mode == entered.mode && measured.prior_mode == entered.prior_mode);
        let stepped = measured.mode_step(sample);
        assert(stepped.prior_mode == measured.prior_mode);
        assert(before.after_ack(sample) == stepped.paced());
    }
}

/// Every call moves between the modes as BBR allows.
pub proof fn calls_move_as_allowed(before: TcpBbrState, after: TcpBbrState)
    requires
        called(before, after),
    ensures
        allowed_move(before, after),
        after.prior_mode == before.prior_mode || (before.mode != TcpBbrMode::ProbeRtt
            && after.prior_mode == before.mode),
{
    if exists|sample: TcpCongestionAckSample| after == #[trigger] before.after_ack(sample) {
        let sample = choose|sample: TcpCongestionAckSample|
            after == #[trigger] before.after_ack(sample);
        lemma_ack_moves(before, sample);
    }
}

/// Startup is over, and ProbeRtt does not lead back to it.
pub open spec fn past_startup(state: TcpBbrState) -> bool {
    state.mode != TcpBbrMode::Startup && (state.mode == TcpBbrMode::ProbeRtt ==> state.prior_mode
        != TcpBbrMode::Startup)
}

/// Once it is over, Startup never comes back, whatever is called.
pub proof fn startup_never_comes_back(states: Seq<TcpBbrState>, last: int)
    requires
        0 <= last < states.len(),
        past_startup(states[0]),
        forall|i: int| 0 <= i < last ==> called(#[trigger] states[i], states[i + 1]),
    ensures
        past_startup(states[last]),
    decreases last,
{
    if last > 0 {
        startup_never_comes_back(states, last - 1);
        calls_move_as_allowed(states[last - 1], states[last - 1 + 1]);
    }
}

} // verus!
