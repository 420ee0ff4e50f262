//! What depends on the clock: when timers are due, what timestamps say, and what the
//! two sides of a handshake settle on before either is used.
use vstd::prelude::*;

use crate::congestion::CongestionController;
use crate::tcp::ack_laws;
use crate::tcp::connection_laws;
use crate::tcp::connection_model;
use crate::tcp::connection_model::{TcpConnection, TcpConnectionError};
use crate::tcp::connection_options;
use crate::tcp::recovery_model;
use crate::tcp::sequence;
use crate::tcp::sequence::TcpSeq;
use crate::tcp::timers::{
    TCP_TIMER_DELAYED_ACK, TCP_TIMER_PERSIST, TCP_TIMER_RACK, TCP_TIMER_RETRANSMIT,
    TCP_TIMER_TIME_WAIT, TCP_TIMER_TLP,
};
use crate::tcp::timestamps::TcpTimestampState;
use crate::tcp::types::{TcpCapabilities, TcpPacket, TcpSegment, TcpState};
use crate::time::Instant;

verus! {

/// Whole ticks of 10 ms, at least one.
pub open spec fn whole_ticks(nanos: int) -> int {
    if nanos < 10_000_000 {
        1
    } else {
        vstd::math::min(nanos / 10_000_000, u64::MAX as int)
    }
}

/// The retransmission timer of an opening connection and the persist timer wait the
/// retransmission timeout, the delayed acknowledgment one tick, TIME-WAIT 120.
pub proof fn fixed_timers_are_due<C: CongestionController>(
    connection: TcpConnection<C>,
    now: Instant,
)
    ensures
        connection.state == TcpState::SynSent ==> connection.ticks_until(
            TCP_TIMER_RETRANSMIT,
            now,
        ) == Some(whole_ticks(connection.retransmit_timeout.rto.nanos as int) as u64),
        connection.state == TcpState::Established ==> {
            &&& connection.ticks_until(TCP_TIMER_PERSIST, now) == Some(
                whole_ticks(connection.retransmit_timeout.rto.nanos as int) as u64,
            )
            &&& connection.ticks_until(TCP_TIMER_DELAYED_ACK, now) == Some(1u64)
            &&& connection.ticks_until(TCP_TIMER_RETRANSMIT, now) is None
            &&& connection.ticks_until(TCP_TIMER_TIME_WAIT, now) is None
        },
        connection.state == TcpState::TimeWait ==> connection.ticks_until(
            TCP_TIMER_TIME_WAIT,
            now,
        ) == Some(120u64),
{
}

/// The RACK timer is due at the earliest deadline of a range that is not lost; with
/// no such range it is not due.
pub proof fn rack_timer_is_due_at_the_earliest<C: CongestionController>(
    connection: TcpConnection<C>,
    earliest: int,
    now: Instant,
)
    requires
        connection.state == TcpState::Established,
        0 <= earliest < connection.recovery@.samples.len(),
        connection.recovery@.samples[earliest].pending(),
        forall|i: int|
            0 <= i < connection.recovery@.samples.len() && (
            #[trigger] connection.recovery@.samples[i]).pending()
                ==> connection.recovery@.samples[earliest].rack_deadline->0.nanos
                <= connection.recovery@.samples[i].rack_deadline->0.nanos,
    ensures
        connection.ticks_until(TCP_TIMER_RACK, now) == Some(
            whole_ticks(
                connection.recovery@.samples[earliest].rack_deadline->0.nanos - now.nanos,
            ) as u64,
        ),
{
    let samples = connection.recovery@.samples;
    recovery_model::earliest_is_least(samples);
    let found = recovery_model::earliest_deadline(samples);
    assert(samples[earliest].pending());
    assert(found is Some);
    assert(found->0.nanos <= samples[earliest].rack_deadline->0.nanos);
}

/// The RACK timer is not due while no range waits for a deadline.
pub proof fn rack_timer_needs_a_deadline<C: CongestionController>(
    connection: TcpConnection<C>,
    now: Instant,
)
    requires
        forall|i: int|
            0 <= i < connection.recovery@.samples.len() ==> !(
            #[trigger] connection.recovery@.samples[i]).pending(),
    ensures
        connection.ticks_until(TCP_TIMER_RACK, now) is None,
{
    recovery_model::earliest_is_least(connection.recovery@.samples);
}

/// The probe timer is due after two smoothed round trips, at least 10 ms and at most
/// the retransmission timeout, with something in flight and no probe sent for it.
pub proof fn probe_timer_is_due_after_two_round_trips<C: CongestionController>(
    connection: TcpConnection<C>,
    now: Instant,
)
    requires
        connection.state == TcpState::Established,
        connection.retransmit_timeout.well_formed(),
    ensures
        ({
            let rto = connection.retransmit_timeout.rto.nanos as int;
            let doubled = match connection.retransmit_timeout.srtt {
                Some(srtt) => 2 * srtt.nanos,
                None => 2 * rto,
            };
            let span = if doubled > rto {
                rto
            } else if doubled < 10_000_000 {
                10_000_000
            } else {
                doubled
            };
            connection.ticks_until(TCP_TIMER_TLP, now) == (
            if connection.recovery@.tlp_timer_armed && connection.recovery@.bytes_in_flight > 0 {
                Some(whole_ticks(span) as u64)
            } else {
                None
            })
        }),
{
}

/// A range that its deadline passed over is lost a quarter of a round trip later, at
/// least a millisecond.
pub proof fn reordering_is_waited_for<C: CongestionController>(connection: TcpConnection<C>)
    ensures
        connection.reordering_window().nanos == (match connection.retransmit_timeout.srtt {
            Some(srtt) => if srtt.nanos < 4_000_000 {
                1_000_000
            } else {
                srtt.nanos as int / 4
            },
            None => 1_000_000,
        }),
{
}

/// A segment whose timestamp is not older, and that covers the next expected byte,
/// leaves its timestamp to be echoed; one ahead of it does not.
pub proof fn timestamp_of_the_next_byte_is_kept<C: CongestionController>(
    connection: TcpConnection<C>,
    packet: TcpPacket,
    now: Instant,
)
    requires
        connection.options.negotiated.timestamps,
        packet.timestamp is Some,
        !packet.flags.rst,
        ack_laws::fresh(connection, packet),
    ensures
        connection.timestamp_passes(packet, now),
        connection.timestamp_taken(packet, now).timestamps.recent_remote == (
        if packet.flags.syn || (connection.rcv_nxt.at_or_after(packet.sequence)
            && packet.spec_end().at_or_after(connection.rcv_nxt)) {
            Some(packet.timestamp->0.tsval)
        } else {
            connection.timestamps.recent_remote
        }),
        connection.timestamp_taken(packet, now).timestamps.last_local
            == connection.timestamps.last_local,
        connection.timestamp_taken(packet, now).rcv_nxt == connection.rcv_nxt,
        connection.timestamp_taken(packet, now).state == connection.state,
{
}

/// A peer that was silent for more than 24 days may start over with its timestamps.
pub proof fn silent_peer_starts_over(state: TcpTimestampState, tsval: u32, now: Instant)
    requires
        state.recent_remote matches Some(recent) && 0 < (TcpSeq { value: tsval }).spec_distance_to(
            TcpSeq { value: recent },
        ) < sequence::HALF_SEQUENCE_SPACE,
        state.recent_remote_at is Some,
    ensures
        state.passes(tsval, now) == (now.nanos > state.recent_remote_at->0.nanos + 24 * 86_400
            * 1_000_000_000),
        state.passes(tsval, now) ==> state.inbound(tsval, false, now).recent_remote == Some(tsval)
            && state.inbound(tsval, false, now).recent_remote_at == Some(now),
        !state.passes(tsval, now) ==> state.inbound(tsval, true, now) == state,
{
}

/// Our timestamp counts the milliseconds since the first one, where that is ahead of
/// the last that went out.
pub proof fn local_timestamp_counts_milliseconds(
    state: TcpTimestampState,
    origin: Instant,
    now: Instant,
)
    requires
        state.local_origin == Some(origin),
        origin.nanos <= now.nanos,
        now.nanos - origin.nanos < 0x1_0000_0000 * 1_000_000,
        now.nanos - origin.nanos >= 1_000_000,
        (TcpSeq { value: ((now.nanos - origin.nanos) / 1_000_000) as u32 }).after(
            TcpSeq { value: state.last_local },
        ),
    ensures
        state.stamp(now).tsval == (now.nanos - origin.nanos) / 1_000_000,
        state.stamped(now).last_local == state.stamp(now).tsval,
        state.stamped(now).local_origin == Some(origin),
        state.stamped(now).recent_remote == state.recent_remote,
{
    let passed = (now.nanos - origin.nanos) / 1_000_000;
    assert(passed % 0x1_0000_0000 == passed);
}

/// The first timestamp sets the start of our clock.
pub proof fn first_timestamp_starts_the_clock(state: TcpTimestampState, now: Instant)
    requires
        state.local_origin is None,
        state.last_local == 0,
    ensures
        state.stamp(now).tsval == 1,
        state.stamped(now).local_origin == Some(now),
        state.stamped(now).last_local == 1,
{
}

/// The echo of one of our timestamps tells how long ago it went out, in milliseconds
/// and at least one; the echo of none, or of one yet to come, tells nothing.
pub proof fn echo_tells_the_round_trip(state: TcpTimestampState, tsecr: u32, now: Instant)
    ensures
        ({
            let clock = TcpSeq { value: state.stamp(now).tsval };
            let gap = (TcpSeq { value: tsecr }).spec_distance_to(clock);
            &&& tsecr == 0 ==> state.echo_sample(tsecr, now) is None
            &&& tsecr != 0 && 0 < gap < sequence::HALF_SEQUENCE_SPACE ==> (state.echo_sample(
                tsecr,
                now,
            ) matches Some(span) && span.nanos == gap * 1_000_000)
            &&& tsecr != 0 && gap == 0 ==> (state.echo_sample(tsecr, now) matches Some(span)
                && span.nanos == 1_000_000)
            &&& tsecr != 0 && gap > sequence::HALF_SEQUENCE_SPACE ==> state.echo_sample(
                tsecr,
                now,
            ) is None
        }),
{
}

/// Where the oldest range went out twice, the echoed timestamp tells the round trip
/// in its stead.
pub proof fn echo_measures_a_resent_range<C: CongestionController>(
    connection: TcpConnection<C>,
    after: TcpConnection<C>,
    result: Result<(Option<TcpSegment>, u16), TcpConnectionError>,
    packet: TcpPacket,
    ack: TcpSeq,
    gap: u32,
    now: Instant,
)
    requires
        connection.established_received(after, result, packet, now),
        connection.state == TcpState::Established,
        ack_laws::fresh(connection, packet),
        ack_laws::takes_the_oldest(connection, packet, ack),
        connection.recovery@.samples[0].retransmitted,
        connection.options.negotiated.timestamps,
        !packet.flags.rst,
        packet.timestamp is Some,
        packet.timestamp->0.tsecr != 0,
        0 < gap < sequence::HALF_SEQUENCE_SPACE,
        connection.timestamps.stamp(now).tsval == (TcpSeq {
            value: packet.timestamp->0.tsecr,
        }).spec_advance(gap).value,
        connection.retransmit_timeout.srtt is None,
        !connection.retransmit_timeout.skip_next_sample,
    ensures
        after.retransmit_timeout.srtt matches Some(srtt) && srtt.nanos == gap * 1_000_000,
{
    let observed = connection.timestamp_taken(packet, now).ecn_observed(packet);
    ack_laws::oldest_range_is_taken(observed, packet, ack);
    let taken = recovery_model::acked_part(observed.recovery@.samples, ack);
    assert(taken.last() == observed.recovery@.samples[0]);
    assert(taken.drop_last() =~= Seq::<recovery_model::TcpSentSample>::empty());
    reveal_with_fuel(recovery_model::latest_round_trip, 2);
    sequence::advance_then_distance(TcpSeq { value: packet.timestamp->0.tsecr }, gap);
    echo_tells_the_round_trip(observed.timestamps, packet.timestamp->0.tsecr, now);
    assert(observed.timestamps.stamp(now).tsval == connection.timestamps.stamp(now).tsval);
}

/// What an acknowledgment alone does to the send window: the peer's window field
/// under its scale, always; the left edge, where it lies within what was sent.
pub proof fn ack_sets_the_send_window<C: CongestionController>(
    connection: TcpConnection<C>,
    ack: TcpSeq,
    advertised_window: u16,
)
    requires
        connection_laws::edges_ordered(connection),
    ensures
        ({
            let after = connection.ack_applied(ack, advertised_window);
            &&& after.snd_wnd == ack_laws::window_of(
                advertised_window,
                connection.options.negotiated.send_window_scale,
            )
            &&& after.snd_una == (if ack_laws::within_sent(connection, ack) {
                ack
            } else {
                connection.snd_una
            })
            &&& after == (TcpConnection {
                snd_wnd: after.snd_wnd,
                snd_una: after.snd_una,
                ..connection
            })
        }),
{
    if connection.snd_una.spec_distance_to(ack) < sequence::HALF_SEQUENCE_SPACE {
        sequence::order_within_half_space(connection.snd_una, ack, connection.snd_nxt);
    }
}

/// The stage of a connection's segments follows its state, and so do its timers.
pub proof fn stage_follows_the_state<C: CongestionController>(
    connection: TcpConnection<C>,
    timer_id: u32,
)
    ensures
        connection_model::stage_of(connection.state) is Drop <==> connection.state
            == TcpState::Closed,
        connection_model::stage_of(connection.state) is Listen <==> connection.state
            == TcpState::Listen,
        connection_model::stage_of(connection.state) is SynSent <==> connection.state
            == TcpState::SynSent,
        connection_model::stage_of(connection.state) is Established <==> connection.state
            == TcpState::Established,
        connection_model::timer_applies(connection.state, timer_id) ==> {
            ||| connection.state == TcpState::SynSent && timer_id == 0
            ||| connection.state == TcpState::Established && (timer_id == 1 || timer_id == 2
                || timer_id == 4 || timer_id == 5)
            ||| connection.state == TcpState::TimeWait && timer_id == 7
        },
        connection_model::timer_applies(TcpState::SynSent, 0),
        connection_model::timer_applies(TcpState::Established, 1),
        connection_model::timer_applies(TcpState::Established, 2),
        connection_model::timer_applies(TcpState::Established, 4),
        connection_model::timer_applies(TcpState::Established, 5),
        connection_model::timer_applies(TcpState::TimeWait, 7),
{
}

/// What a handshake settles on: each side keeps to the other's segment size, windows
/// are scaled only where both sides offer it, each by what its sender offered, and a
/// feature is on only where both offer it. The controller learns the peer's segment
/// size.
pub proof fn offers_are_settled<C: CongestionController>(
    connection: TcpConnection<C>,
    offer: TcpCapabilities,
)
    ensures
        ({
            let after = connection.with_peer_capabilities(offer);
            let ours = connection.options.local_capabilities;
            let agreed = after.options.negotiated;
            let size = match offer.max_segment_size {
                Some(size) if size > 0 => Some(size),
                _ => None,
            };
            &&& after.options.local_capabilities == ours
            &&& agreed.send_max_segment_size == size
            &&& agreed.receive_max_segment_size == ours.max_segment_size
            &&& (agreed.send_window_scale is Some) == (offer.window_scale is Some
                && ours.window_scale is Some)
            &&& (agreed.receive_window_scale is Some) == (agreed.send_window_scale is Some)
            &&& agreed.send_window_scale matches Some(scale) ==> scale == vstd::math::min(
                offer.window_scale->0 as int,
                14,
            )
            &&& agreed.receive_window_scale matches Some(scale) ==> Some(scale)
                == ours.window_scale
            &&& agreed.sack == (offer.sack && ours.sack)
            &&& agreed.timestamps == (offer.timestamps && ours.timestamps)
            &&& agreed.ecn == (offer.ecn && ours.ecn)
            &&& agreed.accurate_ecn == (offer.accurate_ecn && ours.accurate_ecn)
            &&& agreed.fast_open == (offer.fast_open && ours.fast_open)
            &&& after.congestion == (match size {
                Some(size) => connection.congestion.after_mtu_update(size as u32),
                None => connection.congestion,
            })
            &&& after.state == connection.state
            &&& after.snd_nxt == connection.snd_nxt && after.rcv_nxt == connection.rcv_nxt
        }),
{
}

/// Our own offer is kept, without a segment size of zero and with a scale of at most
/// fourteen; before the peer's is known nothing is agreed on.
pub proof fn own_offer_is_kept<C: CongestionController>(
    connection: TcpConnection<C>,
    offer: TcpCapabilities,
)
    ensures
        ({
            let after = connection.with_local_capabilities(offer);
            let ours = after.options.local_capabilities;
            let agreed = after.options.negotiated;
            &&& ours.max_segment_size == (if offer.max_segment_size == Some(0u16) {
                None
            } else {
                offer.max_segment_size
            })
            &&& (ours.window_scale is Some) == (offer.window_scale is Some)
            &&& ours.window_scale matches Some(scale) ==> scale == vstd::math::min(
                offer.window_scale->0 as int,
                14,
            )
            &&& ours.sack == offer.sack && ours.timestamps == offer.timestamps
            &&& ours.ecn == offer.ecn && ours.accurate_ecn == offer.accurate_ecn
            &&& ours.fast_open == offer.fast_open
            &&& after.options.remote_capabilities == connection.options.remote_capabilities
            &&& connection.options.remote_capabilities is None ==> agreed
                == crate::tcp::types::nothing_negotiated()
            &&& connection.options.remote_capabilities matches Some(theirs) ==> agreed
                == connection_options::settled(ours, theirs)
        }),
{
}

} // verus!
