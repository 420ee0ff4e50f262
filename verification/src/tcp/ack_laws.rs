//! What an acknowledgment of the peer does, told by the numbers on the wire.
use vstd::prelude::*;

use crate::congestion::{AckedPacket, CongestionController, RttSample};
use crate::tcp::connection_laws;
use crate::tcp::connection_model::{TcpConnection, TcpConnectionError};
use crate::tcp::recovery_laws;
use crate::tcp::recovery_model;
use crate::tcp::sequence;
use crate::tcp::sequence::TcpSeq;
use crate::tcp::timer_laws;
use crate::tcp::timers;
use crate::tcp::timers::{
    TCP_TIMER_DELAYED_ACK, TCP_TIMER_PERSIST, TCP_TIMER_RACK, TCP_TIMER_TLP,
};
use crate::tcp::types::{IpEcnCodepoint, TcpCloseReason, TcpPacket, TcpSegment, TcpState};
use crate::time::{Duration, Instant};

verus! {

/// A window field times two to a scale of at most fourteen.
pub open spec fn window_of(field: u16, scale: Option<u8>) -> int {
    let shift = match scale {
        Some(scale) => vstd::math::min(scale as int, 14),
        None => 0,
    };
    vstd::math::min(field * vstd::arithmetic::power2::pow2(shift as nat), u32::MAX as int)
}

/// The segment's timestamp is not older than the latest of the peer, where the two
/// sides use timestamps.
pub open spec fn fresh<C: CongestionController>(
    connection: TcpConnection<C>,
    packet: TcpPacket,
) -> bool {
    !connection.options.negotiated.timestamps || (packet.timestamp matches Some(timestamp) && (
    connection.timestamps.recent_remote matches Some(recent) ==> {
        let gap = (TcpSeq { value: recent }).spec_distance_to(TcpSeq { value: timestamp.tsval });
        gap < sequence::HALF_SEQUENCE_SPACE
    }))
}

/// The segment acknowledges `ack`.
pub open spec fn acknowledges(packet: TcpPacket, ack: TcpSeq) -> bool {
    packet.flags.ack && packet.acknowledgment == Some(ack)
}

/// `ack` lies from the left edge to the right edge of what was sent.
pub open spec fn within_sent<C: CongestionController>(
    connection: TcpConnection<C>,
    ack: TcpSeq,
) -> bool {
    connection.snd_una.spec_distance_to(ack) <= connection.snd_una.spec_distance_to(
        connection.snd_nxt,
    ) < sequence::HALF_SEQUENCE_SPACE
}

/// Switching a timer on or off leaves the others as they are.
pub proof fn switching_touches_one_timer(state: timers::TcpTimerState, timer_id: u32, on: bool, other: u32)
    requires
        timer_id < timers::TIMER_MASK_BITS,
        other < timers::TIMER_MASK_BITS,
    ensures
        timers::holds(state.switched(timer_id, on).active, other) == (if other == timer_id {
            on
        } else {
            timers::holds(state.active, other)
        }),
{
    if on {
        timers::starting_touches_one_timer(state, timer_id, other);
    } else {
        timers::stopping_touches_one_timer(state, timer_id, other);
    }
}

proof fn lemma_acknowledged<C: CongestionController>(
    connection: TcpConnection<C>,
    after: TcpConnection<C>,
    packet: TcpPacket,
    ack: TcpSeq,
    now: Instant,
)
    requires
        connection_laws::edges_ordered(connection),
        acknowledges(packet, ack),
        after == connection.packet_acknowledged(after.recovery, after.congestion, packet, now),
    ensures
        after.snd_wnd == window_of(
            packet.advertised_window,
            connection.options.negotiated.send_window_scale,
        ),
        after.snd_una == (if within_sent(connection, ack) {
            ack
        } else {
            connection.snd_una
        }),
        after.snd_nxt == connection.snd_nxt,
        after.rcv_nxt == connection.rcv_nxt,
        after.state == connection.state,
        after.close_reason == connection.close_reason,
        timer_laws::same_ends(connection, after),
        after.tx_intent == connection.tx_intent,
        after.fast_open_syn_payload_len == connection.fast_open_syn_payload_len,
        after.sack == connection.sack,
        !timers::holds(after.timers.active, TCP_TIMER_DELAYED_ACK),
        timers::holds(after.timers.active, TCP_TIMER_PERSIST) == (after.snd_wnd == 0
            && after.recovery@.bytes_in_flight != 0),
        timers::holds(after.timers.active, TCP_TIMER_RACK) == (exists|i: int|
            0 <= i < after.recovery@.samples.len() && (#[trigger] after.recovery@.samples[i]).pending()),
        timers::holds(after.timers.active, TCP_TIMER_TLP) == (after.recovery@.tlp_timer_armed
            && after.recovery@.bytes_in_flight != 0),
{
    let told = connection.progressed(
        after.recovery,
        after.congestion,
        packet,
        ack,
        packet.sack_blocks@,
        now,
    ).ack_applied(ack, packet.advertised_window);
    if connection.snd_una.spec_distance_to(ack) < sequence::HALF_SEQUENCE_SPACE {
        sequence::order_within_half_space(connection.snd_una, ack, connection.snd_nxt);
    }
    let t0 = told.timers;
    let t1 = t0.stopped(TCP_TIMER_DELAYED_ACK);
    let t2 = t1.switched(TCP_TIMER_PERSIST, told.window_probe_due());
    let t3 = t2.switched(TCP_TIMER_RACK, told.rack_waits());
    let t4 = t3.switched(TCP_TIMER_TLP, told.probe_waits());
    assert(after.timers == t4);
    timers::stopping_touches_one_timer(t0, TCP_TIMER_DELAYED_ACK, TCP_TIMER_DELAYED_ACK);
    switching_touches_one_timer(t1, TCP_TIMER_PERSIST, told.window_probe_due(), TCP_TIMER_DELAYED_ACK);
    switching_touches_one_timer(t1, TCP_TIMER_PERSIST, told.window_probe_due(), TCP_TIMER_PERSIST);
    switching_touches_one_timer(t2, TCP_TIMER_RACK, told.rack_waits(), TCP_TIMER_DELAYED_ACK);
    switching_touches_one_timer(t2, TCP_TIMER_RACK, told.rack_waits(), TCP_TIMER_PERSIST);
    switching_touches_one_timer(t2, TCP_TIMER_RACK, told.rack_waits(), TCP_TIMER_RACK);
    switching_touches_one_timer(t3, TCP_TIMER_TLP, told.probe_waits(), TCP_TIMER_DELAYED_ACK);
    switching_touches_one_timer(t3, TCP_TIMER_TLP, told.probe_waits(), TCP_TIMER_PERSIST);
    switching_touches_one_timer(t3, TCP_TIMER_TLP, told.probe_waits(), TCP_TIMER_RACK);
    switching_touches_one_timer(t3, TCP_TIMER_TLP, told.probe_waits(), TCP_TIMER_TLP);
    recovery_model::earliest_is_least(after.recovery@.samples);
}

/// An established connection follows the acknowledgments of its peer: the send
/// window is the window field under the agreed scale, the left edge goes to the
/// acknowledged position if that was sent, and nothing else of what was sent moves.
/// No acknowledgment of ours is owed any longer; the window is probed exactly while
/// it is closed on data in flight.
pub proof fn established_ack_is_followed<C: CongestionController>(
    connection: TcpConnection<C>,
    after: TcpConnection<C>,
    result: Result<(Option<TcpSegment>, u16), TcpConnectionError>,
    packet: TcpPacket,
    ack: TcpSeq,
    now: Instant,
)
    requires
        connection.established_received(after, result, packet, now),
        connection.state == TcpState::Established,
        connection_laws::edges_ordered(connection),
        fresh(connection, packet),
        acknowledges(packet, ack),
    ensures
        result is Ok,
        after.snd_wnd == window_of(
            packet.advertised_window,
            connection.options.negotiated.send_window_scale,
        ),
        after.snd_una == (if within_sent(connection, ack) {
            ack
        } else {
            connection.snd_una
        }),
        after.snd_nxt == connection.snd_nxt,
        timer_laws::same_ends(connection, after),
        after.tx_intent == connection.tx_intent,
        after.fast_open_syn_payload_len == connection.fast_open_syn_payload_len,
        !timers::holds(after.timers.active, TCP_TIMER_DELAYED_ACK),
        timers::holds(after.timers.active, TCP_TIMER_PERSIST) == (after.snd_wnd == 0
            && after.recovery@.bytes_in_flight != 0),
        timers::holds(after.timers.active, TCP_TIMER_RACK) == (exists|i: int|
            0 <= i < after.recovery@.samples.len() && (
            #[trigger] after.recovery@.samples[i]).pending()),
        timers::holds(after.timers.active, TCP_TIMER_TLP) == (after.recovery@.tlp_timer_armed
            && after.recovery@.bytes_in_flight != 0),
{
    let observed = connection.timestamp_taken(packet, now).ecn_observed(packet);
    let moved = observed.packet_acknowledged(after.recovery, after.congestion, packet, now);
    lemma_acknowledged(observed, moved, packet, ack, now);
}

/// Whatever an acknowledgment acknowledges, its window field sets the send window: the
/// field times two to the agreed scale, as far as that fits.
pub proof fn any_ack_sets_the_window<C: CongestionController>(
    connection: TcpConnection<C>,
    after: TcpConnection<C>,
    result: Result<(Option<TcpSegment>, u16), TcpConnectionError>,
    packet: TcpPacket,
    ack: TcpSeq,
    now: Instant,
)
    requires
        connection.established_received(after, result, packet, now),
        connection.state == TcpState::Established,
        fresh(connection, packet),
        acknowledges(packet, ack),
    ensures
        after.snd_wnd == window_of(
            packet.advertised_window,
            connection.options.negotiated.send_window_scale,
        ),
        after.snd_una == ack || after.snd_una == connection.snd_una,
{
}

/// The peer's FIN in order moves an established connection to CLOSE-WAIT and is
/// acknowledged at once; no other segment moves the state or the next expected
/// position.
pub proof fn established_fin_is_acknowledged<C: CongestionController>(
    connection: TcpConnection<C>,
    after: TcpConnection<C>,
    result: Result<(Option<TcpSegment>, u16), TcpConnectionError>,
    packet: TcpPacket,
    now: Instant,
)
    requires
        connection.established_received(after, result, packet, now),
        connection.state == TcpState::Established,
        fresh(connection, packet),
    ensures
        ({
            let closes = packet.flags.fin && packet.payload_len == 0 && packet.sequence
                == connection.rcv_nxt;
            &&& after.state == (if closes {
                TcpState::CloseWait
            } else {
                TcpState::Established
            })
            &&& after.rcv_nxt == (if closes {
                connection.rcv_nxt.spec_advance(1)
            } else {
                connection.rcv_nxt
            })
            &&& (result->Ok_0.0 is Some) == closes
            &&& closes ==> {
                let reply = result->Ok_0.0->0;
                &&& reply.flags.ack && !reply.flags.rst && !reply.flags.syn && !reply.flags.fin
                &&& after.rcv_nxt.value != 0 ==> reply.acknowledgment == after.rcv_nxt.value
                &&& after.snd_nxt.value != 0 ==> reply.sequence == after.snd_nxt.value
                &&& reply.payload_len == 0
                &&& reply.local == packet.local && reply.remote == packet.remote
            }
        }),
{
}

/// A segment without the ACK flag moves nothing of what was sent.
pub proof fn silent_segment_acknowledges_nothing<C: CongestionController>(
    connection: TcpConnection<C>,
    after: TcpConnection<C>,
    result: Result<(Option<TcpSegment>, u16), TcpConnectionError>,
    packet: TcpPacket,
    now: Instant,
)
    requires
        connection.established_received(after, result, packet, now),
        connection.state == TcpState::Established,
        !packet.flags.ack,
    ensures
        after.snd_una == connection.snd_una,
        after.snd_nxt == connection.snd_nxt,
        after.snd_wnd == connection.snd_wnd,
        after.recovery == connection.recovery,
        after.congestion == connection.congestion,
        after.retransmit_timeout == connection.retransmit_timeout,
{
}

/// Where timestamps are in use, a segment with none, or with one older than the
/// latest that came within the last 24 days, changes nothing and is not answered.
pub proof fn old_segment_is_dropped<C: CongestionController>(
    connection: TcpConnection<C>,
    after: TcpConnection<C>,
    result: Result<(Option<TcpSegment>, u16), TcpConnectionError>,
    packet: TcpPacket,
    now: Instant,
)
    requires
        connection.established_received(after, result, packet, now),
        connection.state == TcpState::Established,
        connection.options.negotiated.timestamps,
        !packet.flags.rst,
        packet.timestamp matches Some(timestamp) ==> {
            &&& connection.timestamps.recent_remote matches Some(recent) && 0 < (TcpSeq {
                value: timestamp.tsval,
            }).spec_distance_to(TcpSeq { value: recent }) < sequence::HALF_SEQUENCE_SPACE
            &&& connection.timestamps.recent_remote_at matches Some(at) && now.nanos - at.nanos
                <= 24 * 86_400 * 1_000_000_000
        },
    ensures
        after == connection,
        result == Ok::<(Option<TcpSegment>, u16), TcpConnectionError>((None, 0)),
{
}

/// Outside the established state the acknowledgments of the peer are followed in
/// the same way, up to the end of the connection.
#[verifier::spinoff_prover]
#[verifier::rlimit(60)]
pub proof fn close_side_ack_is_followed<C: CongestionController>(
    connection: TcpConnection<C>,
    after: TcpConnection<C>,
    reply: Option<TcpSegment>,
    packet: TcpPacket,
    ack: TcpSeq,
    now: Instant,
)
    requires
        connection.close_side_received(after, reply, packet, now),
        connection.state != TcpState::SynRcvd,
        connection_laws::edges_ordered(connection),
        fresh(connection, packet),
        !packet.flags.rst,
        acknowledges(packet, ack),
    ensures
        after.snd_wnd == window_of(
            packet.advertised_window,
            connection.options.negotiated.send_window_scale,
        ),
        after.snd_una == (if within_sent(connection, ack) {
            ack
        } else {
            connection.snd_una
        }),
        after.snd_nxt == connection.snd_nxt,
        timer_laws::same_ends(connection, after),
        after.tx_intent == connection.tx_intent,
        after.fast_open_syn_payload_len == connection.fast_open_syn_payload_len,
{
    let observed = connection.timestamp_taken(packet, now).ecn_observed(packet);
    let moved = observed.packet_acknowledged(after.recovery, after.congestion, packet, now);
    lemma_acknowledged(observed, moved, packet, ack, now);
}

/// A reset that reaches a connection outside the established state closes it, for
/// the peer's reason and without an answer.
pub proof fn reset_closes<C: CongestionController>(
    connection: TcpConnection<C>,
    after: TcpConnection<C>,
    reply: Option<TcpSegment>,
    packet: TcpPacket,
    now: Instant,
)
    requires
        connection.close_side_received(after, reply, packet, now),
        packet.flags.rst,
    ensures
        after.state == TcpState::Closed,
        after.close_reason == Some(TcpCloseReason::RemoteReset),
        reply is None,
{
}

/// The acknowledgment is that of the oldest outstanding range, and of no other.
pub open spec fn takes_the_oldest<C: CongestionController>(
    connection: TcpConnection<C>,
    packet: TcpPacket,
    ack: TcpSeq,
) -> bool {
    let samples = connection.recovery@.samples;
    &&& acknowledges(packet, ack)
    &&& packet.sack_blocks@.len() == 0
    &&& within_sent(connection, ack)
    &&& ack != connection.snd_una
    &&& samples.len() > 0
    &&& ack.after(samples[0].sequence)
    &&& samples[0].end_sequence == ack
    &&& samples.len() > 1 ==> ack.at_or_before(samples[1].sequence)
    &&& samples[0].bytes <= connection.recovery@.bytes_in_flight
}

/// What an acknowledgment of the oldest range takes and leaves.
pub proof fn oldest_range_is_taken<C: CongestionController>(
    connection: TcpConnection<C>,
    packet: TcpPacket,
    ack: TcpSeq,
)
    requires
        takes_the_oldest(connection, packet, ack),
    ensures
        ({
            let samples = connection.recovery@.samples;
            let taken = recovery_model::acked_part(samples, ack);
            &&& taken == seq![samples[0]]
            &&& recovery_model::total_bytes(taken) == samples[0].bytes
            &&& recovery_model::unacked_part(samples, ack) == samples.drop_first()
            &&& connection.accepts(ack) && ack.after(connection.snd_una)
        }),
{
    let samples = connection.recovery@.samples;
    let rest = samples.drop_first();
    if samples.len() > 1 {
        assert(rest[0] == samples[1]);
    }
    assert(recovery_model::acked_part(rest, ack) =~= seq![]);
    assert(recovery_model::unacked_part(rest, ack) =~= rest);
    let taken = recovery_model::acked_part(samples, ack);
    assert(taken =~= seq![samples[0]]);
    assert(taken.drop_last() =~= Seq::<recovery_model::TcpSentSample>::empty());
    reveal_with_fuel(recovery_model::total_bytes, 2);
    sequence::order_within_half_space(connection.snd_una, ack, connection.snd_nxt);
    sequence::order_within_half_space(connection.snd_una, connection.snd_una, ack);
}

/// The round trip of a range that went out once is the time since it was sent, and
/// the first one is the estimate. A range that went out twice tells nothing, unless
/// an echoed timestamp does.
pub proof fn oldest_range_is_measured<C: CongestionController>(
    connection: TcpConnection<C>,
    after: TcpConnection<C>,
    result: Result<(Option<TcpSegment>, u16), TcpConnectionError>,
    packet: TcpPacket,
    ack: TcpSeq,
    now: Instant,
)
    requires
        connection.established_received(after, result, packet, now),
        connection.state == TcpState::Established,
        fresh(connection, packet),
        takes_the_oldest(connection, packet, ack),
    ensures
        ({
            let oldest = connection.recovery@.samples[0];
            let before = connection.retransmit_timeout;
            let passed = if now.nanos >= oldest.sent_at.nanos {
                now.nanos - oldest.sent_at.nanos
            } else {
                0
            };
            &&& !oldest.retransmitted && !before.skip_next_sample && before.srtt is None ==> (
            after.retransmit_timeout.srtt matches Some(srtt) && srtt.nanos == passed)
            &&& !oldest.retransmitted && !before.skip_next_sample && before.srtt is Some
                && before.rttvar is Some ==> (after.retransmit_timeout.srtt matches Some(srtt)
                && srtt.nanos == ((7 * before.srtt->0.nanos + passed) / 8) as u128)
            &&& oldest.retransmitted && !connection.options.negotiated.timestamps
                ==> after.retransmit_timeout == before
            &&& !oldest.retransmitted ==> after.ecn.pending_ce_feedback == 0 && !after.ecn.ecn_ce
            &&& oldest.retransmitted && !connection.options.negotiated.timestamps ==> after.ecn
                == connection.ecn.observed(
                connection.options.negotiated,
                packet.flags,
                packet.ip_ecn,
            )
        }),
{
    let observed = connection.timestamp_taken(packet, now).ecn_observed(packet);
    oldest_range_is_taken(observed, packet, ack);
    let taken = recovery_model::acked_part(observed.recovery@.samples, ack);
    assert(taken.last() == observed.recovery@.samples[0]);
    assert(taken.drop_last() =~= Seq::<recovery_model::TcpSentSample>::empty());
    reveal_with_fuel(recovery_model::latest_round_trip, 2);
}

/// The controller hears of it once, with the bytes that leave and those that stay in
/// flight, and the range is no longer outstanding.
pub proof fn oldest_range_is_reported<C: CongestionController>(
    connection: TcpConnection<C>,
    after: TcpConnection<C>,
    result: Result<(Option<TcpSegment>, u16), TcpConnectionError>,
    packet: TcpPacket,
    ack: TcpSeq,
    now: Instant,
)
    requires
        connection.established_received(after, result, packet, now),
        connection.state == TcpState::Established,
        fresh(connection, packet),
        takes_the_oldest(connection, packet, ack),
    ensures
        ({
            let oldest = connection.recovery@.samples[0];
            let left = (connection.recovery@.bytes_in_flight - oldest.bytes) as u32;
            let rtt = Duration {
                nanos: (if oldest.retransmitted || now.nanos < oldest.sent_at.nanos {
                    0
                } else {
                    now.nanos - oldest.sent_at.nanos
                }) as u128,
            };
            let feedback = connection.ecn.observed(
                connection.options.negotiated,
                packet.flags,
                packet.ip_ecn,
            ).pending_ce_feedback;
            after.congestion == connection.congestion.after_ack(
                now,
                told_of(oldest, feedback),
                RttSample { latest: rtt, min: rtt },
                left,
            ).after_end_acks(now, left, false, oldest.packet_number)
        }),
        after.recovery@.bytes_in_flight == connection.recovery@.bytes_in_flight
            - connection.recovery@.samples[0].bytes,
        after.recovery@.samples.len() == connection.recovery@.samples.len() - 1,
        forall|i: int|
            0 <= i < after.recovery@.samples.len() ==> (
            #[trigger] after.recovery@.samples[i]).sequence == connection.recovery@.samples[i
                + 1].sequence && after.recovery@.samples[i].end_sequence
                == connection.recovery@.samples[i + 1].end_sequence,
{
    let observed = connection.timestamp_taken(packet, now).ecn_observed(packet);
    oldest_range_is_taken(observed, packet, ack);
    let oldest = observed.recovery@.samples[0];
    let taken = recovery_model::acked_part(observed.recovery@.samples, ack);
    assert(taken.last() == oldest);
    assert(taken.drop_last() =~= Seq::<recovery_model::TcpSentSample>::empty());
    reveal_with_fuel(recovery_model::delivered_to, 2);
    reveal_with_fuel(recovery_model::largest_packet, 2);
    assert(told_of(oldest, observed.ecn.pending_ce_feedback) == recovery_model::acked_packet(
        oldest,
        observed.recovery_ack(ack, now),
    ));
    let kept = observed.recovery@.samples.drop_first();
    let recovered = observed.recovery@.acked(ack, after.congestion.spec_max_datagram_size());
    assert(after.recovery@ == recovered);
    assert(recovery_laws::same_ranges(kept, recovered.samples));
    assert forall|i: int| 0 <= i < after.recovery@.samples.len() implies (
    #[trigger] after.recovery@.samples[i]).sequence == connection.recovery@.samples[i + 1].sequence
        && after.recovery@.samples[i].end_sequence == connection.recovery@.samples[i
        + 1].end_sequence by {
        assert(kept[i] == connection.recovery@.samples[i + 1]);
    }
}

/// What the controller is told of a range.
pub open spec fn told_of(range: recovery_model::TcpSentSample, ecn_ce_count: u64) -> AckedPacket {
    AckedPacket {
        packet_number: range.packet_number,
        bytes: range.bytes,
        sent_at: range.sent_at,
        app_limited: false,
        ecn_ce_count,
    }
}

/// A SACK block reports just the second of two outstanding ranges.
pub open spec fn reports_the_second<C: CongestionController>(
    connection: TcpConnection<C>,
    packet: TcpPacket,
) -> bool {
    let samples = connection.recovery@.samples;
    &&& acknowledges(packet, connection.snd_una)
    &&& packet.sack_blocks@.len() == 1
    &&& connection_laws::edges_ordered(connection)
    &&& samples.len() == 2
    &&& connection.snd_una == samples[0].sequence
    &&& samples[0].end_sequence == samples[1].sequence
    &&& 0 < samples[0].sequence.spec_distance_to(samples[0].end_sequence)
        < samples[0].sequence.spec_distance_to(samples[1].end_sequence)
        < sequence::HALF_SEQUENCE_SPACE
    &&& packet.sack_blocks@[0].left_edge == samples[1].sequence
    &&& packet.sack_blocks@[0].right_edge == samples[1].end_sequence
    &&& samples[1].bytes <= connection.recovery@.bytes_in_flight
}

proof fn lemma_second_taken<C: CongestionController>(
    connection: TcpConnection<C>,
    packet: TcpPacket,
)
    requires
        reports_the_second(connection, packet),
    ensures
        ({
            let samples = connection.recovery@.samples;
            let blocks = packet.sack_blocks@;
            let taken = connection.recovery@.sack_taken(connection.snd_una, blocks);
            &&& taken == seq![samples[1]]
            &&& recovery_model::total_bytes(taken) == samples[1].bytes
            &&& recovery_model::all_unsacked(
                recovery_model::unacked_part(samples, connection.snd_una),
                blocks,
                1,
            ) == seq![samples[0]]
            &&& recovery_model::highest_right_edge(connection.snd_una, blocks, 1)
                == samples[1].end_sequence
            &&& connection.accepts(connection.snd_una)
        }),
{
    let samples = connection.recovery@.samples;
    let blocks = packet.sack_blocks@;
    let base = samples[0].sequence;
    let block = blocks[0];
    sequence::order_within_half_space(base, samples[0].end_sequence, samples[1].end_sequence);
    sequence::order_within_half_space(base, base, samples[0].end_sequence);
    sequence::order_within_half_space(base, base, samples[1].end_sequence);
    sequence::order_within_half_space(
        connection.snd_una,
        connection.snd_una,
        connection.snd_nxt,
    );
    let none = Seq::<recovery_model::TcpSentSample>::empty();
    assert(recovery_model::acked_part(samples, base) =~= none);
    assert(recovery_model::unacked_part(samples, base) == samples);
    let rest = samples.drop_first();
    assert(rest[0] == samples[1]);
    assert(rest.drop_first() =~= none);
    assert(recovery_model::sacked_part(rest.drop_first(), block) =~= none);
    assert(recovery_model::unsacked_part(rest.drop_first(), block) =~= none);
    assert(recovery_model::sacked_piece(samples[1], block) == samples[1]);
    assert(recovery_model::unsacked_pieces(samples[1], block) =~= none);
    assert(recovery_model::sacked_part(rest, block) =~= seq![samples[1]]);
    assert(recovery_model::unsacked_part(rest, block) =~= none);
    assert(recovery_model::sacked_part(samples, block) =~= seq![samples[1]]);
    assert(recovery_model::unsacked_part(samples, block) =~= seq![samples[0]]);
    reveal_with_fuel(recovery_model::all_sacked, 2);
    reveal_with_fuel(recovery_model::all_unsacked, 2);
    reveal_with_fuel(recovery_model::highest_right_edge, 2);
    let taken = connection.recovery@.sack_taken(connection.snd_una, blocks);
    assert(taken =~= seq![samples[1]]);
    assert(taken.drop_last() =~= none);
    reveal_with_fuel(recovery_model::total_bytes, 2);
}

/// A range that a SACK block reports leaves with its bytes, and the controller hears
/// of it; the range that it passed over stays, and unless it is lost, has until the
/// end of the reordering window.
#[verifier::spinoff_prover]
#[verifier::rlimit(60)]
pub proof fn reported_range_leaves<C: CongestionController>(
    connection: TcpConnection<C>,
    after: TcpConnection<C>,
    result: Result<(Option<TcpSegment>, u16), TcpConnectionError>,
    packet: TcpPacket,
    now: Instant,
)
    requires
        connection.established_received(after, result, packet, now),
        connection.state == TcpState::Established,
        fresh(connection, packet),
        reports_the_second(connection, packet),
        now.nanos + connection.reordering_window().nanos <= u128::MAX,
    ensures
        ({
            let passed = connection.recovery@.samples[0];
            let reported = connection.recovery@.samples[1];
            let left = (connection.recovery@.bytes_in_flight - reported.bytes) as u32;
            let rtt = Duration {
                nanos: (if reported.retransmitted || now.nanos < reported.sent_at.nanos {
                    0
                } else {
                    now.nanos - reported.sent_at.nanos
                }) as u128,
            };
            let feedback = connection.ecn.observed(
                connection.options.negotiated,
                packet.flags,
                packet.ip_ecn,
            ).pending_ce_feedback;
            &&& after.congestion == connection.congestion.after_ack(
                now,
                told_of(reported, feedback),
                RttSample { latest: rtt, min: rtt },
                left,
            ).after_end_acks(now, left, false, reported.packet_number)
            &&& after.recovery@.bytes_in_flight == left
            &&& after.recovery@.samples.len() == 1
            &&& after.recovery@.samples[0].sequence == passed.sequence
            &&& after.recovery@.samples[0].end_sequence == passed.end_sequence
            &&& after.recovery@.samples[0].lost || after.recovery@.samples[0].rack_deadline is Some
            &&& !after.recovery@.samples[0].lost && passed.rack_deadline is None
                ==> after.recovery@.samples[0].rack_deadline->0.nanos == now.nanos
                + connection.reordering_window().nanos
            &&& after.snd_una == connection.snd_una
        }),
{
    let observed = connection.timestamp_taken(packet, now).ecn_observed(packet);
    lemma_second_taken(observed, packet);
    let reported = observed.recovery@.samples[1];
    let blocks = packet.sack_blocks@;
    let taken = observed.recovery@.sack_taken(connection.snd_una, blocks);
    assert(taken.last() == reported);
    assert(taken.drop_last() =~= Seq::<recovery_model::TcpSentSample>::empty());
    reveal_with_fuel(recovery_model::delivered_to, 2);
    reveal_with_fuel(recovery_model::largest_packet, 2);
    let ack = observed.recovery_ack(connection.snd_una, now);
    assert(told_of(reported, observed.ecn.pending_ce_feedback) == recovery_model::acked_packet(
        reported,
        ack,
    ));
    let base = connection.snd_una;
    sequence::order_within_half_space(
        base,
        observed.recovery@.samples[0].end_sequence,
        observed.recovery@.samples[1].end_sequence,
    );
    assert(after.recovery@ == observed.recovery@.sacked(
        ack,
        blocks,
        after.congestion.spec_max_datagram_size(),
    ));
}

/// The timers that are told to run with an acknowledgment: RACK's while a range waits
/// for its deadline, the probe's while one is due, and no other.
pub proof fn recovery_timers_are_told<C: CongestionController>(
    connection: TcpConnection<C>,
    after: TcpConnection<C>,
    result: Result<(Option<TcpSegment>, u16), TcpConnectionError>,
    packet: TcpPacket,
    ack: TcpSeq,
    now: Instant,
    other: u32,
)
    requires
        connection.established_received(after, result, packet, now),
        connection.state == TcpState::Established,
        fresh(connection, packet),
        acknowledges(packet, ack),
        other < timers::TIMER_MASK_BITS,
    ensures
        timers::holds(result->Ok_0.1, TCP_TIMER_RACK) == (exists|i: int|
            0 <= i < after.recovery@.samples.len() && (
            #[trigger] after.recovery@.samples[i]).pending()),
        timers::holds(result->Ok_0.1, TCP_TIMER_TLP) == (after.recovery@.tlp_timer_armed
            && after.recovery@.bytes_in_flight != 0),
        timers::holds(result->Ok_0.1, other) ==> other == TCP_TIMER_RACK || other
            == TCP_TIMER_TLP,
{
    let observed = connection.timestamp_taken(packet, now).ecn_observed(packet);
    let moved = observed.packet_acknowledged(after.recovery, after.congestion, packet, now);
    recovery_model::earliest_is_least(after.recovery@.samples);
    mask_holds_what_it_is_made_of(moved.rack_waits(), moved.probe_waits(), other);
}

/// A mask made of the two recovery timers holds those that were put in.
pub proof fn mask_holds_what_it_is_made_of(rack: bool, probe: bool, other: u32)
    requires
        other < timers::TIMER_MASK_BITS,
    ensures
        ({
            let mask = (if rack {
                timers::bit_of(TCP_TIMER_RACK)
            } else {
                0
            }) | (if probe {
                timers::bit_of(TCP_TIMER_TLP)
            } else {
                0
            });
            &&& timers::holds(mask, TCP_TIMER_RACK) == rack
            &&& timers::holds(mask, TCP_TIMER_TLP) == probe
            &&& timers::holds(mask, other) ==> other == TCP_TIMER_RACK || other == TCP_TIMER_TLP
        }),
{
    assert(((1u16 << 1u32) | (1u16 << 2u32)) & (1u16 << 1u32) != 0 && ((1u16 << 1u32) | (1u16
        << 2u32)) & (1u16 << 2u32) != 0 && ((1u16 << 1u32) | 0u16) & (1u16 << 1u32) != 0 && ((1u16
        << 1u32) | 0u16) & (1u16 << 2u32) == 0 && (0u16 | (1u16 << 2u32)) & (1u16 << 1u32) == 0 && (
    0u16 | (1u16 << 2u32)) & (1u16 << 2u32) != 0 && (0u16 | 0u16) & (1u16 << 1u32) == 0 && (0u16
        | 0u16) & (1u16 << 2u32) == 0) by (bit_vector);
    assert(other < 16 && other != 1 && other != 2 ==> ((1u16 << 1u32) | (1u16 << 2u32)) & (1u16
        << other) == 0 && ((1u16 << 1u32) | 0u16) & (1u16 << other) == 0 && (0u16 | (1u16 << 2u32))
        & (1u16 << other) == 0 && (0u16 | 0u16) & (1u16 << other) == 0) by (bit_vector);
}

/// What congestion marks do: a marked segment is echoed until it is confirmed, and an
/// echo from the peer is confirmed by the next data, counted, and acted on.
pub proof fn congestion_marks_are_noted<C: CongestionController>(
    connection: TcpConnection<C>,
    packet: TcpPacket,
)
    requires
        connection.options.negotiated.ecn,
        !connection.options.negotiated.accurate_ecn,
        connection.ecn.pending_ce_feedback < u64::MAX,
        connection.ecn.received_ce_counter < u64::MAX,
    ensures
        ({
            let after = connection.ecn_observed(packet).ecn;
            let marked = packet.ip_ecn == Some(IpEcnCodepoint::Ce);
            let echoed = packet.flags.ece && packet.flags.ack;
            &&& after.ece_ack == (marked || (connection.ecn.ece_ack && !packet.flags.cwr))
            &&& after.cwr == (connection.ecn.cwr || echoed)
            &&& after.ecn_ce == ((connection.ecn.ecn_ce || echoed) && !packet.flags.cwr)
            &&& after.pending_ce_feedback == connection.ecn.pending_ce_feedback + (if echoed {
                1int
            } else {
                0
            })
            &&& after.received_ce_counter == connection.ecn.received_ce_counter + (if marked {
                1int
            } else {
                0
            })
        }),
{
}

/// Without ECN on both sides nothing is marked, echoed or counted.
pub proof fn marks_need_agreement<C: CongestionController>(
    connection: TcpConnection<C>,
    packet: TcpPacket,
)
    requires
        !connection.options.negotiated.ecn,
        !connection.options.negotiated.accurate_ecn,
        !packet.flags.cwr,
    ensures
        connection.ecn_observed(packet).ecn == connection.ecn,
{
}

/// With accurate feedback every marked segment is counted, and an acknowledgment's
/// counter tells how many of ours were.
pub proof fn accurate_marks_are_counted<C: CongestionController>(
    connection: TcpConnection<C>,
    packet: TcpPacket,
)
    requires
        connection.options.negotiated.accurate_ecn,
        connection.ecn.peer_ace_counter < 8,
        connection.ecn.pending_ce_feedback + 8 <= u64::MAX,
        connection.ecn.received_ce_counter < u64::MAX,
    ensures
        ({
            let after = connection.ecn_observed(packet).ecn;
            let told = (if packet.flags.ns {
                4int
            } else {
                0
            }) + (if packet.flags.cwr {
                2int
            } else {
                0
            }) + (if packet.flags.ece {
                1int
            } else {
                0
            });
            let more = if told >= connection.ecn.peer_ace_counter {
                told - connection.ecn.peer_ace_counter
            } else {
                told + 8 - connection.ecn.peer_ace_counter
            };
            &&& packet.flags.ack ==> after.peer_ace_counter == told && after.pending_ce_feedback
                == connection.ecn.pending_ce_feedback + more && after.ecn_ce == (more > 0)
                && after.cwr == (connection.ecn.cwr || more > 0)
            &&& !packet.flags.ack ==> after.pending_ce_feedback
                == connection.ecn.pending_ce_feedback && after.cwr == connection.ecn.cwr
            &&& after.received_ce_counter == connection.ecn.received_ce_counter + (
            if packet.ip_ecn == Some(IpEcnCodepoint::Ce) {
                1int
            } else {
                0
            })
        }),
{
}

} // verus!
