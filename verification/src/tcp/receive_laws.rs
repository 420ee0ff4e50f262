//! What a payload does to its receiver: which bytes are next, which are reported as
//! received out of order, and when the peer is told.
use vstd::prelude::*;

use crate::congestion::CongestionController;
use crate::tcp::connection_model::{TcpConnection, TcpConnectionError};
use crate::tcp::established;
use crate::tcp::established::{RxDelivery, TcpEstablishedArrival, TcpEstablishedOutcome};
use crate::tcp::recovery_model::TcpSackBlock;
use crate::tcp::sack;
use crate::tcp::send_laws;
use crate::tcp::sequence;
use crate::tcp::sequence::TcpSeq;
use crate::tcp::timer_laws;
use crate::tcp::timers;
use crate::tcp::timers::TCP_TIMER_DELAYED_ACK;
use crate::tcp::types::{TcpPacket, TcpState};
use crate::time::Instant;

verus! {

/// How far ahead of `base` a position lies.
pub open spec fn ahead_by(base: TcpSeq, position: TcpSeq) -> int {
    base.spec_distance_to(position) as int
}

/// A range within half the sequence space ahead of `base`, with its edges in order.
pub open spec fn lies_ahead(base: TcpSeq, range: TcpSackBlock) -> bool {
    ahead_by(base, range.left_edge) <= ahead_by(base, range.right_edge)
        < sequence::HALF_SEQUENCE_SPACE
}

/// The byte at `position` lies in the range.
pub open spec fn has_byte(base: TcpSeq, range: TcpSackBlock, position: TcpSeq) -> bool {
    ahead_by(base, range.left_edge) <= ahead_by(base, position) < ahead_by(
        base,
        range.right_edge,
    )
}

/// The byte at `position` lies in one of the connection's out-of-order ranges.
pub open spec fn range_has<C: CongestionController>(
    connection: TcpConnection<C>,
    base: TcpSeq,
    position: TcpSeq,
) -> bool {
    exists|range: TcpSackBlock| #[trigger]
        connection.sack.ranges.holds(range) && has_byte(base, range, position)
}

/// The range that a payload was kept in.
pub open spec fn kept_range(base: TcpSeq, start: u32, len: u32) -> TcpSackBlock {
    TcpSackBlock {
        left_edge: base.spec_advance(start),
        right_edge: base.spec_advance(start).spec_advance(len),
    }
}

/// Some bytes lie between the two ranges.
pub open spec fn apart(base: TcpSeq, a: TcpSackBlock, b: TcpSackBlock) -> bool {
    ||| ahead_by(base, a.right_edge) < ahead_by(base, b.left_edge)
    ||| ahead_by(base, b.right_edge) < ahead_by(base, a.left_edge)
}

/// Where each out-of-order range of the connection lies ahead of `base`.
pub open spec fn ranges_ahead<C: CongestionController>(
    connection: TcpConnection<C>,
    base: TcpSeq,
) -> bool {
    &&& connection.sack.ranges.well_formed()
    &&& forall|range: TcpSackBlock| #[trigger]
        connection.sack.ranges.holds(range) ==> lies_ahead(base, range)
}

proof fn lemma_kept_range(base: TcpSeq, start: u32, len: u32)
    requires
        start + len < sequence::HALF_SEQUENCE_SPACE,
    ensures
        ahead_by(base, kept_range(base, start, len).left_edge) == start,
        ahead_by(base, kept_range(base, start, len).right_edge) == start + len,
        lies_ahead(base, kept_range(base, start, len)),
{
    sequence::advance_then_distance(base, start);
    assert(base.spec_advance(start).spec_advance(len) == base.spec_advance((start + len) as u32));
    sequence::advance_then_distance(base, (start + len) as u32);
}

proof fn lemma_touching(base: TcpSeq, a: TcpSackBlock, b: TcpSackBlock)
    requires
        lies_ahead(base, a),
        lies_ahead(base, b),
    ensures
        sack::touching(a, b) == !apart(base, a, b),
        sack::touching(a, b) ==> lies_ahead(base, sack::spanning(a, b)),
        sack::touching(a, b) ==> forall|position: TcpSeq|
            has_byte(base, #[trigger] sack::spanning(a, b), position) == (has_byte(
                base,
                a,
                position,
            ) || has_byte(base, b, position)),
        a.left_edge.after(base) == (ahead_by(base, a.left_edge) > 0),
{
    sequence::order_within_half_space(base, a.right_edge, b.left_edge);
    sequence::order_within_half_space(base, a.left_edge, b.right_edge);
    sequence::order_within_half_space(base, b.left_edge, a.left_edge);
    sequence::order_within_half_space(base, a.right_edge, b.right_edge);
    sequence::order_within_half_space(base, a.left_edge, base);
}

/// After a payload was kept out of order, with no older range touching it, the first
/// range to report is exactly where it was kept, and the three newest of the older
/// ranges that still lie ahead stay as they are.
#[verifier::spinoff_prover]
pub proof fn kept_payload_is_reported_first<C: CongestionController>(
    connection: TcpConnection<C>,
    packet: TcpPacket,
    trim: u32,
    offset: u32,
    accepted: u32,
    start: u32,
    len: u32,
    rx_available: u32,
    older: TcpSackBlock,
)
    requires
        connection.options.negotiated.sack,
        0 < start,
        0 < len,
        start + len < sequence::HALF_SEQUENCE_SPACE,
        ranges_ahead(connection, connection.rcv_nxt),
        forall|range: TcpSackBlock| #[trigger]
            connection.sack.ranges.holds(range) ==> apart(
                connection.rcv_nxt,
                range,
                kept_range(connection.rcv_nxt, start, len),
            ),
    ensures
        ({
            let after = established::delivered(
                connection,
                packet,
                trim,
                offset,
                RxDelivery::OutOfOrder { accepted, start, len, rx_available },
            );
            &&& after.rcv_nxt == connection.rcv_nxt
            &&& after.sack.ranges.first == Some(
                TcpSackBlock {
                    left_edge: connection.rcv_nxt.spec_advance(start),
                    right_edge: connection.rcv_nxt.spec_advance(start).spec_advance(len),
                },
            )
            &&& (connection.sack.ranges.first == Some(older) || connection.sack.ranges.second
                == Some(older) || connection.sack.ranges.third == Some(older))
                && older.left_edge.after(connection.rcv_nxt) ==> after.sack.ranges.holds(older)
            &&& after.sack.ranges.holds(older) ==> older == after.sack.ranges.first->0
                || connection.sack.ranges.holds(older)
        }),
{
    let base = connection.rcv_nxt;
    assert(base.spec_advance(0) == base);
    let newest = kept_range(base, start, len);
    lemma_kept_range(base, start, len);
    assert(newest.left_edge != newest.right_edge);
    if connection.sack.ranges.first is Some {
        assert(connection.sack.ranges.holds(connection.sack.ranges.first->0));
        lemma_touching(base, connection.sack.ranges.first->0, newest);
    }
    if connection.sack.ranges.second is Some {
        assert(connection.sack.ranges.holds(connection.sack.ranges.second->0));
        lemma_touching(base, connection.sack.ranges.second->0, newest);
    }
    if connection.sack.ranges.third is Some {
        assert(connection.sack.ranges.holds(connection.sack.ranges.third->0));
        lemma_touching(base, connection.sack.ranges.third->0, newest);
    }
    if connection.sack.ranges.fourth is Some {
        assert(connection.sack.ranges.holds(connection.sack.ranges.fourth->0));
        lemma_touching(base, connection.sack.ranges.fourth->0, newest);
    }
}

/// Whatever becomes of a payload, every range that is reported starts behind the
/// next expected byte: that byte is never reported as received.
#[verifier::spinoff_prover]
pub proof fn reported_ranges_miss_the_next_byte<C: CongestionController>(
    connection: TcpConnection<C>,
    packet: TcpPacket,
    trim: u32,
    offset: u32,
    delivery: RxDelivery,
    range: TcpSackBlock,
)
    requires
        connection.options.negotiated.sack,
        delivery matches RxDelivery::OutOfOrder { start, .. } ==> 0 < start
            < sequence::HALF_SEQUENCE_SPACE,
    ensures
        ({
            let after = established::delivered(connection, packet, trim, offset, delivery);
            after.sack.ranges.holds(range) ==> range.left_edge.after(after.rcv_nxt)
        }),
{
    let after = established::delivered(connection, packet, trim, offset, delivery);
    match delivery {
        RxDelivery::OutOfOrder { start, .. } => {
            sequence::advance_then_distance(after.rcv_nxt, start);
            assert(after.rcv_nxt.spec_advance(start).after(after.rcv_nxt));
        },
        _ => {},
    }
}

proof fn lemma_grown(
    base: TcpSeq,
    newest: TcpSackBlock,
    old: Option<TcpSackBlock>,
    position: TcpSeq,
)
    requires
        lies_ahead(base, newest),
        old matches Some(range) ==> lies_ahead(base, range),
    ensures
        ({
            let grown = sack::grown(Some(newest), old, base);
            &&& grown matches Some(range) && lies_ahead(base, range) && (has_byte(
                base,
                range,
                position,
            ) ==> has_byte(base, newest, position) || has_byte(base, old->0, position) && old
                is Some) && (has_byte(base, newest, position) ==> has_byte(base, range, position))
        }),
{
    if let Some(range) = old {
        lemma_touching(base, range, newest);
        lemma_touching(base, newest, range);
        if sack::touching(newest, range) {
            let whole = sack::spanning(newest, range);
            assert(has_byte(base, whole, position) == (has_byte(base, newest, position)
                || has_byte(base, range, position)));
        }
    }
}

/// No byte is reported that was not received: each reported byte was in a range
/// before, or is one that the payload was kept for. All of those are reported.
#[verifier::spinoff_prover]
pub proof fn reported_bytes_were_received<C: CongestionController>(
    connection: TcpConnection<C>,
    packet: TcpPacket,
    trim: u32,
    offset: u32,
    accepted: u32,
    start: u32,
    len: u32,
    rx_available: u32,
    position: TcpSeq,
)
    requires
        connection.options.negotiated.sack,
        0 < len,
        start + len < sequence::HALF_SEQUENCE_SPACE,
        ranges_ahead(connection, connection.rcv_nxt),
    ensures
        ({
            let base = connection.rcv_nxt;
            let after = established::delivered(
                connection,
                packet,
                trim,
                offset,
                RxDelivery::OutOfOrder { accepted, start, len, rx_available },
            );
            let kept = start <= ahead_by(base, position) < start + len;
            &&& range_has(after, base, position) ==> kept || range_has(connection, base, position)
            &&& kept ==> after.sack.ranges.first is Some && has_byte(
                base,
                after.sack.ranges.first->0,
                position,
            )
        }),
{
    let base = connection.rcv_nxt;
    assert(base.spec_advance(0) == base);
    let after = established::delivered(
        connection,
        packet,
        trim,
        offset,
        RxDelivery::OutOfOrder { accepted, start, len, rx_available },
    );
    let ranges = connection.sack.ranges;
    let newest = kept_range(base, start, len);
    lemma_kept_range(base, start, len);
    assert(newest.left_edge != newest.right_edge);
    if ranges.first is Some {
        assert(ranges.holds(ranges.first->0));
    }
    if ranges.second is Some {
        assert(ranges.holds(ranges.second->0));
    }
    if ranges.third is Some {
        assert(ranges.holds(ranges.third->0));
    }
    if ranges.fourth is Some {
        assert(ranges.holds(ranges.fourth->0));
    }
    lemma_grown(base, newest, ranges.first, position);
    let n1 = sack::grown(Some(newest), ranges.first, base);
    lemma_grown(base, n1->0, ranges.second, position);
    let n2 = sack::grown(n1, ranges.second, base);
    lemma_grown(base, n2->0, ranges.third, position);
    let n3 = sack::grown(n2, ranges.third, base);
    lemma_grown(base, n3->0, ranges.fourth, position);
    let n4 = sack::grown(n3, ranges.fourth, base);
    assert(after.sack.ranges.first == n4);
    if range_has(after, base, position) {
        let range = choose|range: TcpSackBlock| #[trigger]
            after.sack.ranges.holds(range) && has_byte(base, range, position);
        if range != n4->0 {
            assert(connection.sack.ranges.holds(range));
        } else if !has_byte(base, newest, position) {
            assert((ranges.first is Some && has_byte(base, ranges.first->0, position)) || (
            ranges.second is Some && has_byte(base, ranges.second->0, position)) || (ranges.third
                is Some && has_byte(base, ranges.third->0, position)) || (ranges.fourth is Some
                && has_byte(base, ranges.fourth->0, position)));
        }
    }
}

/// What a payload in order leaves: the reader's position goes on by just what it
/// got, and the ranges that are left are those that still lie ahead of it.
pub proof fn delivery_in_order_drops_reached_ranges<C: CongestionController>(
    connection: TcpConnection<C>,
    packet: TcpPacket,
    trim: u32,
    offset: u32,
    accepted: u32,
    promoted: u32,
    rx_available: u32,
    range: TcpSackBlock,
)
    requires
        connection.options.negotiated.sack,
        connection.sack.ranges.well_formed(),
        accepted + promoted <= u32::MAX,
    ensures
        ({
            let after = established::delivered(
                connection,
                packet,
                trim,
                offset,
                RxDelivery::InOrder { accepted, promoted, rx_available },
            );
            &&& after.rcv_nxt == connection.rcv_nxt.spec_advance((accepted + promoted) as u32)
            &&& after.sack.ranges.holds(range) == (connection.sack.ranges.holds(range)
                && range.left_edge.after(after.rcv_nxt))
        }),
{
}

/// The part of a payload that came before is reported once as received twice: from
/// the segment's start to the byte that was expected. A payload that came before as
/// a whole is reported as such.
pub proof fn repeated_bytes_are_reported<C: CongestionController>(
    connection: TcpConnection<C>,
    packet: TcpPacket,
    trim: u32,
    offset: u32,
    delivery: RxDelivery,
)
    requires
        connection.options.negotiated.sack,
    ensures
        established::delivered(connection, packet, trim, offset, delivery).sack.duplicate == (
        if trim != 0 {
            Some(TcpSackBlock { left_edge: packet.sequence, right_edge: connection.rcv_nxt })
        } else {
            connection.sack.duplicate
        }),
        established::duplicate_noted(connection, packet).sack.duplicate == Some(
            TcpSackBlock {
                left_edge: packet.sequence,
                right_edge: packet.sequence.spec_advance(packet.payload_len),
            },
        ),
        established::duplicate_noted(connection, packet).sack.ranges == connection.sack.ranges,
        established::duplicate_noted(connection, packet).rcv_nxt == connection.rcv_nxt,
        established::duplicate_noted(connection, packet).rcv_wnd == connection.rcv_wnd,
{
}

/// Without SACK on both sides no range is ever kept for a report.
pub proof fn ranges_need_agreement<C: CongestionController>(
    connection: TcpConnection<C>,
    packet: TcpPacket,
    trim: u32,
    offset: u32,
    delivery: RxDelivery,
)
    requires
        !connection.options.negotiated.sack,
    ensures
        established::delivered(connection, packet, trim, offset, delivery).sack == connection.sack,
        established::duplicate_noted(connection, packet).sack == connection.sack,
{
}

/// The room that the session has left is what the peer is told from then on.
pub proof fn delivery_sets_the_room<C: CongestionController>(
    connection: TcpConnection<C>,
    packet: TcpPacket,
    trim: u32,
    offset: u32,
    delivery: RxDelivery,
)
    ensures
        established::delivered(connection, packet, trim, offset, delivery).rcv_wnd == (
        match delivery {
            RxDelivery::NotAccepted { rx_available } => rx_available,
            RxDelivery::InOrder { rx_available, .. } => rx_available,
            RxDelivery::OutOfOrder { rx_available, .. } => rx_available,
        }),
{
}

/// A payload ahead of the next expected byte is offered whole, with its distance; of
/// one that starts behind it the new part is offered, in order; one without a new
/// byte is not offered.
pub proof fn payload_is_cut_at_the_next_byte<C: CongestionController>(
    connection: TcpConnection<C>,
    packet: TcpPacket,
    gap: u32,
)
    requires
        0 < packet.payload_len < sequence::HALF_SEQUENCE_SPACE,
        gap < sequence::HALF_SEQUENCE_SPACE,
    ensures
        packet.sequence == connection.rcv_nxt.spec_advance(gap) && gap + packet.payload_len
            < sequence::HALF_SEQUENCE_SPACE ==> connection.payload_window(packet) == Some(
            (0u32, gap),
        ),
        connection.rcv_nxt == packet.sequence.spec_advance(gap) && 0 < gap < packet.payload_len
            ==> connection.payload_window(packet) == Some((gap, 0u32)),
        connection.rcv_nxt == packet.sequence.spec_advance(gap) && gap >= packet.payload_len
            ==> connection.payload_window(packet) is None,
{
    let end = packet.sequence.spec_advance(packet.payload_len);
    sequence::advance_then_distance(connection.rcv_nxt, gap);
    sequence::advance_then_distance(packet.sequence, gap);
    sequence::advance_then_distance(packet.sequence, packet.payload_len);
    if connection.rcv_nxt == packet.sequence.spec_advance(gap) {
        sequence::order_within_half_space(packet.sequence, end, connection.rcv_nxt);
        sequence::order_within_half_space(packet.sequence, packet.sequence, connection.rcv_nxt);
    } else if packet.sequence == connection.rcv_nxt.spec_advance(gap) && gap + packet.payload_len
        < sequence::HALF_SEQUENCE_SPACE {
        sequence::advance_then_distance(connection.rcv_nxt, (gap + packet.payload_len) as u32);
        assert(end == connection.rcv_nxt.spec_advance((gap + packet.payload_len) as u32));
        sequence::order_within_half_space(connection.rcv_nxt, end, connection.rcv_nxt);
        sequence::order_within_half_space(
            connection.rcv_nxt,
            packet.sequence,
            connection.rcv_nxt,
        );
    }
}

/// A payload that did not arrive whole, alone and in order is acknowledged at once,
/// and so is one that was received before: the answer names the byte that is
/// expected next now, and reports the ranges that are kept now.
#[verifier::spinoff_prover]
pub proof fn disorder_is_acknowledged_at_once<C: CongestionController>(
    connection: TcpConnection<C>,
    after: TcpConnection<C>,
    outcome: TcpEstablishedOutcome,
    packet: TcpPacket,
    arrival: TcpEstablishedArrival,
    delivery: RxDelivery,
    now: Instant,
)
    requires
        established::finished(connection, after, outcome, packet, arrival, delivery, now),
        connection.sack.ranges.well_formed(),
        arrival.payload matches Some((trim, offset)) ==> trim != 0 || offset != 0 || !(
        delivery is InOrder) || (delivery matches RxDelivery::InOrder {
            accepted,
            promoted,
            ..
        } && (accepted != packet.payload_len || promoted != 0)),
        arrival.payload is None ==> arrival.duplicate,
        connection.snd_nxt.value != 0,
        after.rcv_nxt.value != 0,
    ensures
        outcome.reply matches Some(segment) && {
            &&& segment.flags.ack && !segment.flags.syn && !segment.flags.rst
                && !segment.flags.fin
            &&& segment.acknowledgment == after.rcv_nxt.value
            &&& segment.sequence == connection.snd_nxt.value
            &&& segment.local == packet.local && segment.remote == packet.remote
            &&& segment.payload_len == 0
            &&& segment.advertised_window == send_laws::field_of(
                after.rcv_wnd,
                connection.options.negotiated.receive_window_scale,
            )
            &&& connection.options.negotiated.sack ==> {
                let settled = established::payload_settled(connection, packet, arrival, delivery);
                &&& settled.sack.duplicate is None ==> segment.sack_blocks == after.sack.ranges
                &&& settled.sack.duplicate is Some ==> segment.sack_blocks.first
                    == settled.sack.duplicate && segment.sack_blocks.second
                    == after.sack.ranges.first
            }
        },
        connection.options.negotiated.sack ==> after.sack.duplicate is None,
{
    let settled = established::payload_settled(connection, packet, arrival, delivery);
    send_laws::field_is_the_room(settled.rcv_wnd, connection.options.negotiated.receive_window_scale);
}

/// The first payload that arrives just as expected is not acknowledged by itself:
/// the delayed acknowledgment timer runs for it.
pub proof fn expected_payload_waits<C: CongestionController>(
    connection: TcpConnection<C>,
    after: TcpConnection<C>,
    outcome: TcpEstablishedOutcome,
    packet: TcpPacket,
    arrival: TcpEstablishedArrival,
    rx_available: u32,
    now: Instant,
)
    requires
        established::finished(
            connection,
            after,
            outcome,
            packet,
            arrival,
            RxDelivery::InOrder { accepted: packet.payload_len, promoted: 0, rx_available },
            now,
        ),
        arrival.payload == Some((0u32, 0u32)),
        !timers::holds(connection.timers.active, TCP_TIMER_DELAYED_ACK),
    ensures
        outcome.reply == arrival.control,
        timers::holds(after.timers.active, TCP_TIMER_DELAYED_ACK),
        after.rcv_nxt == connection.rcv_nxt.spec_advance(packet.payload_len),
        outcome.ready,
{
    timers::starting_touches_one_timer(
        connection.timers,
        TCP_TIMER_DELAYED_ACK,
        TCP_TIMER_DELAYED_ACK,
    );
}

/// The next one is acknowledged at once, with the first: the timer stops, and the
/// segment acknowledges everything received so far.
pub proof fn second_expected_payload_is_acknowledged<C: CongestionController>(
    connection: TcpConnection<C>,
    after: TcpConnection<C>,
    outcome: TcpEstablishedOutcome,
    packet: TcpPacket,
    arrival: TcpEstablishedArrival,
    rx_available: u32,
    now: Instant,
)
    requires
        established::finished(
            connection,
            after,
            outcome,
            packet,
            arrival,
            RxDelivery::InOrder { accepted: packet.payload_len, promoted: 0, rx_available },
            now,
        ),
        arrival.payload == Some((0u32, 0u32)),
        timers::holds(connection.timers.active, TCP_TIMER_DELAYED_ACK),
        after.rcv_nxt.value != 0,
    ensures
        outcome.reply matches Some(segment) && segment.flags.ack && segment.acknowledgment
            == after.rcv_nxt.value && segment.payload_len == 0,
        !timers::holds(after.timers.active, TCP_TIMER_DELAYED_ACK),
        after.rcv_nxt == connection.rcv_nxt.spec_advance(packet.payload_len),
        after.rcv_wnd == rx_available,
        outcome.ready,
{
    timers::stopping_touches_one_timer(
        connection.timers,
        TCP_TIMER_DELAYED_ACK,
        TCP_TIMER_DELAYED_ACK,
    );
}

/// What does not arrive just as expected leaves the timers as they are.
pub proof fn disorder_leaves_the_timers<C: CongestionController>(
    connection: TcpConnection<C>,
    after: TcpConnection<C>,
    outcome: TcpEstablishedOutcome,
    packet: TcpPacket,
    arrival: TcpEstablishedArrival,
    delivery: RxDelivery,
    now: Instant,
)
    requires
        established::finished(connection, after, outcome, packet, arrival, delivery, now),
        arrival.payload matches Some((trim, offset)) ==> trim != 0 || offset != 0 || !(
        delivery is InOrder) || (delivery matches RxDelivery::InOrder {
            accepted,
            promoted,
            ..
        } && (accepted != packet.payload_len || promoted != 0)),
    ensures
        after.timers == connection.timers,
        after.state == connection.state,
        after.snd_una == connection.snd_una && after.snd_nxt == connection.snd_nxt,
        after.recovery == connection.recovery && after.congestion == connection.congestion,
{
}

/// The session is woken for bytes in order, and only for those; a segment without
/// payload moves nothing of what is received.
pub proof fn reader_is_woken_for_bytes_in_order<C: CongestionController>(
    connection: TcpConnection<C>,
    after: TcpConnection<C>,
    outcome: TcpEstablishedOutcome,
    packet: TcpPacket,
    arrival: TcpEstablishedArrival,
    delivery: RxDelivery,
    now: Instant,
)
    requires
        established::finished(connection, after, outcome, packet, arrival, delivery, now),
    ensures
        outcome.ready == (arrival.payload is Some && delivery is InOrder),
        !(arrival.payload is Some && delivery is InOrder) ==> after.rcv_nxt == connection.rcv_nxt,
        arrival.payload is None && !arrival.duplicate ==> after == connection && outcome.reply
            == arrival.control,
        after.snd_una == connection.snd_una,
        after.snd_nxt == connection.snd_nxt,
        after.snd_wnd == connection.snd_wnd,
        after.state == connection.state,
        after.recovery == connection.recovery,
        after.congestion == connection.congestion,
{
}

/// What an acknowledgment lets the session release is what the left edge went on by,
/// where neither a SYN with data nor a FIN lies in between; the session hears of
/// room when, and only when, the edge moved.
pub proof fn acknowledged_payload_is_released<C: CongestionController>(
    connection: TcpConnection<C>,
    after: TcpConnection<C>,
    arrival: TcpEstablishedArrival,
    packet: TcpPacket,
    now: Instant,
)
    requires
        established::arrived(connection, after, Ok(arrival), packet, now),
        connection.fast_open_syn_payload_len == 0,
        connection.fin_sequence is None,
    ensures
        connection.state == TcpState::Established,
        arrival.acked_tx_len == connection.snd_una.spec_distance_to(after.snd_una),
        arrival.ack_advanced == (after.snd_una != connection.snd_una),
        arrival.duplicate ==> packet.payload_len != 0 && arrival.payload is None,
        arrival.payload is None && packet.payload_len != 0 ==> arrival.duplicate,
        after.fast_open_syn_payload_len == 0,
{
}

/// Data on our SYN counts as released once it is, and no more of it than there was.
pub proof fn released_syn_data_is_settled<C: CongestionController>(
    connection: TcpConnection<C>,
    after: TcpConnection<C>,
    arrival: TcpEstablishedArrival,
    packet: TcpPacket,
    now: Instant,
)
    requires
        established::arrived(connection, after, Ok(arrival), packet, now),
    ensures
        after.fast_open_syn_payload_len == (if arrival.acked_tx_len
            >= connection.fast_open_syn_payload_len {
            0
        } else {
            connection.fast_open_syn_payload_len - arrival.acked_tx_len
        }),
{
}

/// Outside the established state a segment is refused and changes nothing.
pub proof fn arrival_needs_an_open_connection<C: CongestionController>(
    connection: TcpConnection<C>,
    after: TcpConnection<C>,
    result: Result<TcpEstablishedArrival, TcpConnectionError>,
    packet: TcpPacket,
    now: Instant,
)
    requires
        established::arrived(connection, after, result, packet, now),
    ensures
        (result is Ok) == (connection.state == TcpState::Established),
        result is Err ==> after == connection && result->Err_0
            == TcpConnectionError::ReceiveOutsideEstablished,
{
}

/// A payload moves the next expected position and the ranges to report, and nothing
/// else of the connection.
pub proof fn payload_moves_nothing_else<C: CongestionController>(
    connection: TcpConnection<C>,
    sequence: TcpSeq,
    trim: u32,
    delivered_len: u32,
    newest_start: Option<u32>,
    newest_len: u32,
)
    ensures
        ({
            let after = connection.payload_received(
                sequence,
                trim,
                delivered_len,
                newest_start,
                newest_len,
            );
            &&& after.rcv_nxt == connection.rcv_nxt.spec_advance(delivered_len)
            &&& timer_laws::same_ends(connection, after)
            &&& after.state == connection.state && after.close_reason == connection.close_reason
            &&& after.snd_una == connection.snd_una && after.snd_nxt == connection.snd_nxt
            &&& after.snd_wnd == connection.snd_wnd
            &&& after.recovery == connection.recovery && after.congestion == connection.congestion
            &&& after.timers == connection.timers && after.timestamps == connection.timestamps
            &&& after.retransmit_timeout == connection.retransmit_timeout
            &&& after.ecn == connection.ecn && after.tx_intent == connection.tx_intent
        }),
{
}

/// The room that a session has is the window, as far as the window can tell it.
pub proof fn room_is_the_window<C: CongestionController>(
    connection: TcpConnection<C>,
    rx_available: usize,
)
    ensures
        rx_available <= u32::MAX ==> connection.with_room(rx_available).rcv_wnd == rx_available,
        rx_available > u32::MAX ==> connection.with_room(rx_available).rcv_wnd == u32::MAX,
        connection.with_room(rx_available).rcv_nxt == connection.rcv_nxt,
        connection.with_room(rx_available).state == connection.state,
        connection.with_room(rx_available).snd_wnd == connection.snd_wnd,
{
}

} // verus!
