//! What holds of a connection across several events.
use vstd::prelude::*;

use crate::congestion::CongestionController;
use crate::tcp::connection_model;
use crate::tcp::connection_model::TcpConnection;
use crate::tcp::recovery::TcpRecoveryState;
use crate::tcp::recovery_model::TcpSackBlock;
use crate::tcp::sequence;
use crate::tcp::sequence::TcpSeq;
use crate::tcp::timers;
use crate::tcp::timers::{TCP_TIMER_RETRANSMIT, TCP_TIMER_TIME_WAIT};
use crate::tcp::types::{TcpCloseReason, TcpPacket, TcpState};
use crate::time::Instant;

verus! {

/// The left edge lies at or before the right edge, and both less than half of
/// the sequence space apart.
pub open spec fn edges_ordered<C: CongestionController>(connection: TcpConnection<C>) -> bool {
    connection.snd_una.spec_distance_to(connection.snd_nxt) < sequence::HALF_SEQUENCE_SPACE
}

/// The segment acknowledges `position`.
pub open spec fn acks(packet: TcpPacket, position: TcpSeq) -> bool {
    packet.flags.ack && packet.acknowledgment == Some(position)
}

/// An acknowledgment moves the left edge forward or leaves it, never past what
/// was sent, and leaves the right edge where it is.
pub proof fn acknowledgment_moves_edge_forward<C: CongestionController>(
    connection: TcpConnection<C>,
    recovery: TcpRecoveryState,
    congestion: C,
    packet: TcpPacket,
    acknowledgment: TcpSeq,
    advertised_window: u16,
    blocks: Seq<TcpSackBlock>,
    now: Instant,
)
    requires
        edges_ordered(connection),
    ensures
        ({
            let after = connection.acknowledged(
                recovery,
                congestion,
                packet,
                acknowledgment,
                advertised_window,
                blocks,
                now,
            );
            &&& after.snd_una.at_or_after(connection.snd_una)
            &&& after.snd_una.at_or_before(after.snd_nxt)
            &&& after.snd_nxt == connection.snd_nxt
            &&& edges_ordered(after)
            &&& after.snd_una == acknowledgment || after.snd_una == connection.snd_una
        }),
{
}

/// What an established connection sends for the first time fits the segment
/// size, the peer's window and, outside recovery, the congestion window.
pub proof fn budget_within_windows<C: CongestionController>(
    connection: TcpConnection<C>,
    pending_len: usize,
)
    requires
        connection.state == TcpState::Established,
        connection.tx_intent is None,
        connection.payload_budget(pending_len) > 0,
    ensures
        ({
            let budget = connection.payload_budget(pending_len);
            let in_flight = connection.recovery@.bytes_in_flight;
            &&& budget <= pending_len
            &&& budget <= connection.segment_room()
            &&& in_flight + budget <= connection.snd_wnd
            &&& !connection.recovery@.episode.active ==> in_flight + budget
                <= connection.congestion.spec_metrics().congestion_window
        }),
{
}

/// Consecutive transmissions of new data follow each other without gap or
/// overlap.
pub proof fn transmissions_are_contiguous<C: CongestionController>(
    connection: TcpConnection<C>,
    after: TcpConnection<C>,
    first_len: usize,
    second_len: usize,
    mask: u16,
    now: Instant,
    later: Instant,
)
    requires
        connection.state == TcpState::Established,
        connection.tx_intent is None,
        connection.local is Some,
        connection.after_transmission(now).committed(after, Ok(mask), first_len, now),
    ensures
        first_len <= u32::MAX,
        connection.transmission(first_len, now)->Ok_0.sequence == connection.snd_nxt.value,
        after.transmission(second_len, later)->Ok_0.sequence == connection.snd_nxt.spec_advance(
            first_len as u32,
        ).value,
{
}

/// Our FIN takes one position, the first time it is sent, and is sent again at
/// that position.
pub proof fn fin_takes_one_position<C: CongestionController>(
    connection: TcpConnection<C>,
    pending: bool,
    now: Instant,
    later: Instant,
)
    requires
        connection.state == TcpState::FinWait1 || connection.state == TcpState::LastAck,
        connection.local is Some,
        connection.fin_sequence is None,
    ensures
        ({
            let (once, first) = connection.ready_step(pending, now);
            let (twice, second) = once.ready_step(pending, later);
            &&& first matches Some(segment) && segment.flags.fin && segment.sequence
                == connection.snd_nxt.value
            &&& second matches Some(segment) && segment.flags.fin && segment.sequence
                == connection.snd_nxt.value
            &&& once.snd_nxt == connection.snd_nxt.spec_advance(1)
            &&& twice.snd_nxt == once.snd_nxt
        }),
{
}

/// The states that a segment can lead to from each state outside the established
/// one, resets apart.
pub open spec fn close_successor(from: TcpState, to: TcpState) -> bool {
    match from {
        TcpState::SynRcvd => to == TcpState::SynRcvd || to == TcpState::Established || to
            == TcpState::Closed,
        TcpState::FinWait1 => to == TcpState::FinWait1 || to == TcpState::FinWait2 || to
            == TcpState::Closing || to == TcpState::TimeWait,
        TcpState::FinWait2 => to == TcpState::FinWait2 || to == TcpState::TimeWait,
        TcpState::Closing => to == TcpState::Closing || to == TcpState::TimeWait,
        TcpState::LastAck => to == TcpState::LastAck || to == TcpState::Closed,
        _ => to == from,
    }
}

/// Segments move a connection only along the edges of the state diagram, and the
/// next expected position goes forward by exactly the peer's FIN.
pub proof fn segments_follow_the_state_diagram<C: CongestionController>(
    connection: TcpConnection<C>,
    packet: TcpPacket,
    now: Instant,
)
    ensures
        close_successor(connection.state, connection.close_step(packet, now).0.state),
        connection.state != TcpState::SynRcvd ==> {
            let after = connection.close_step(packet, now).0;
            after.rcv_nxt == connection.rcv_nxt || (connection.fin_in_order(packet)
                && after.rcv_nxt == connection.rcv_nxt.spec_advance(1))
        },
{
}

/// An active close in which the peer acknowledges our FIN, then sends its own:
/// through FIN-WAIT-2 to TIME-WAIT, with the peer's FIN acknowledged and the
/// TIME-WAIT timer running.
pub proof fn active_close_reaches_time_wait<C: CongestionController>(
    connection: TcpConnection<C>,
    recovery: TcpRecoveryState,
    congestion: C,
    ack: TcpPacket,
    fin: TcpPacket,
    now: Instant,
)
    requires
        connection.state == TcpState::FinWait1,
        edges_ordered(connection),
        acks(ack, connection.snd_nxt),
        !ack.flags.fin,
        fin.flags.fin,
        fin.sequence == connection.rcv_nxt,
    ensures
        ({
            let waiting = connection.packet_acknowledged(
                recovery,
                congestion,
                ack,
                now,
            ).close_step(ack, now);
            let done = waiting.0.close_step(fin, now);
            &&& waiting.0.state == TcpState::FinWait2
            &&& waiting.1 is None
            &&& done.0.state == TcpState::TimeWait
            &&& done.0.rcv_nxt == connection.rcv_nxt.spec_advance(1)
            &&& timers::holds(done.0.timers.active, TCP_TIMER_TIME_WAIT)
            &&& done.1 matches Some(segment) && segment.flags.ack
            &&& done.0.rcv_nxt.value != 0 ==> done.1->0.acknowledgment == done.0.rcv_nxt.value
        }),
{
    let waiting = connection.packet_acknowledged(recovery, congestion, ack, now).close_step(
        ack,
        now,
    ).0;
    timers::starting_touches_one_timer(waiting.timers, TCP_TIMER_TIME_WAIT, TCP_TIMER_TIME_WAIT);
}

/// A simultaneous close: the peer's FIN comes before it acknowledges ours. Then
/// through CLOSING to TIME-WAIT.
pub proof fn simultaneous_close_reaches_time_wait<C: CongestionController>(
    connection: TcpConnection<C>,
    recovery: TcpRecoveryState,
    congestion: C,
    fin: TcpPacket,
    ack: TcpPacket,
    now: Instant,
)
    requires
        connection.state == TcpState::FinWait1,
        edges_ordered(connection),
        connection.snd_una != connection.snd_nxt,
        fin.flags.fin,
        fin.sequence == connection.rcv_nxt,
        fin.acknowledgment != Some(connection.snd_nxt),
        acks(ack, connection.snd_nxt),
    ensures
        ({
            let crossed = connection.close_step(fin, now);
            let done = crossed.0.packet_acknowledged(recovery, congestion, ack, now).close_step(
                ack,
                now,
            );
            &&& crossed.0.state == TcpState::Closing
            &&& crossed.1 matches Some(segment) && segment.flags.ack
            &&& done.0.state == TcpState::TimeWait
            &&& timers::holds(done.0.timers.active, TCP_TIMER_TIME_WAIT)
        }),
{
    let moved = connection.close_step(fin, now).0.packet_acknowledged(
        recovery,
        congestion,
        ack,
        now,
    );
    timers::starting_touches_one_timer(moved.timers, TCP_TIMER_TIME_WAIT, TCP_TIMER_TIME_WAIT);
}

/// A passive close: the peer's FIN, our session's close, our FIN, its
/// acknowledgment. The connection ends closed on local request.
pub proof fn passive_close_reaches_closed<C: CongestionController>(
    connection: TcpConnection<C>,
    recovery: TcpRecoveryState,
    congestion: C,
    fin: TcpPacket,
    ack: TcpPacket,
    now: Instant,
)
    requires
        connection.state == TcpState::Established,
        connection.local is Some,
        connection.fin_sequence is None,
        edges_ordered(connection),
        connection.snd_una.spec_distance_to(connection.snd_nxt) + 1
            < sequence::HALF_SEQUENCE_SPACE,
        fin.flags.fin,
        fin.payload_len == 0,
        fin.sequence == connection.rcv_nxt,
        acks(ack, connection.snd_nxt.spec_advance(1)),
    ensures
        ({
            let waiting = connection.established_fin(fin, now);
            let sent = waiting.0.closing().ready_step(false, now);
            let done = sent.0.packet_acknowledged(recovery, congestion, ack, now).close_step(
                ack,
                now,
            );
            &&& waiting.0.state == TcpState::CloseWait
            &&& waiting.1 matches Some(segment) && segment.flags.ack
            &&& sent.0.state == TcpState::LastAck
            &&& sent.1 matches Some(segment) && segment.flags.fin
            &&& done.0.state == TcpState::Closed
            &&& done.0.close_reason == Some(TcpCloseReason::LocalRequest)
        }),
{
}

/// A FIN that is not the next expected byte moves nothing in an established
/// connection.
pub proof fn early_fin_is_ignored<C: CongestionController>(
    connection: TcpConnection<C>,
    packet: TcpPacket,
    now: Instant,
)
    requires
        packet.sequence != connection.rcv_nxt,
    ensures
        connection.established_fin(packet, now) == (connection, None::<
            crate::tcp::types::TcpSegment,
        >),
{
}

/// A passive open: a SYN, then the acknowledgment of our SYN with a timestamp
/// that passes, where timestamps were agreed on. The connection is
/// established, expects the byte after the peer's SYN, has nothing outstanding,
/// and sends no further answer.
pub proof fn passive_open_establishes<C: CongestionController>(
    connection: TcpConnection<C>,
    syn: TcpPacket,
    ack: TcpPacket,
    now: Instant,
    later: Instant,
)
    requires
        syn.flags.syn,
        acks(
            ack,
            (if connection.iss.value == 0 {
                TcpSeq { value: 1 }
            } else {
                connection.iss
            }).spec_advance(1),
        ),
        !ack.flags.rst,
        connection.syn_accepted(syn, 0, now).after_control(
            connection_model::syn_ack(
                connection.syn_accepted(syn, 0, now).options.negotiated.ecn,
            ),
            now,
        ).timestamp_passes(ack, later),
    ensures
        ({
            let accepted = connection.syn_accepted(syn, 0, now);
            let flags = connection_model::syn_ack(accepted.options.negotiated.ecn);
            let answered = accepted.after_control(flags, now);
            let opened = answered.final_ack(ack, later);
            &&& answered.state == TcpState::SynRcvd
            &&& opened.0.state == TcpState::Established
            &&& opened.1 is None
            &&& opened.0.rcv_nxt == syn.sequence.spec_advance(1)
            &&& opened.0.snd_una == opened.0.snd_nxt
        }),
{
    let accepted = connection.syn_accepted(syn, 0, now);
    sequence::advance_then_distance(accepted.iss, 1);
}

/// An active open: our SYN, then a SYN that acknowledges it and whose timestamp
/// passes, where timestamps were agreed on. The connection is
/// established, expects the byte after the peer's SYN and its payload, and
/// answers with an acknowledgment.
pub proof fn active_open_establishes<C: CongestionController>(
    connection: TcpConnection<C>,
    initial_sequence: u32,
    reply: TcpPacket,
    now: Instant,
)
    requires
        reply.flags.syn,
        !reply.flags.rst,
        acks(reply, (TcpSeq { value: initial_sequence }).spec_advance(1)),
        connection.connecting(initial_sequence).with_peer_capabilities(
            reply.capabilities,
        ).timestamp_passes(reply, now),
    ensures
        ({
            let opened = connection.connecting(initial_sequence).open_reply(reply, now);
            &&& opened.0.state == TcpState::Established
            &&& opened.0.snd_una == opened.0.snd_nxt
            &&& opened.0.rcv_nxt == reply.sequence.spec_advance(1).spec_advance(reply.payload_len)
            &&& !timers::holds(opened.0.timers.active, TCP_TIMER_RETRANSMIT)
            &&& opened.1 matches Some(segment) && segment.flags.ack && !segment.flags.rst
        }),
{
    let iss = TcpSeq { value: initial_sequence };
    sequence::advance_then_distance(iss, 1);
    timers::stopping_touches_one_timer(
        connection.timers,
        TCP_TIMER_RETRANSMIT,
        TCP_TIMER_RETRANSMIT,
    );
}

/// A SYN-ACK or ACK for something that was never sent is answered with a reset at
/// the acknowledged position, and changes neither state nor numbers.
pub proof fn bad_open_reply_is_reset<C: CongestionController>(
    connection: TcpConnection<C>,
    reply: TcpPacket,
    now: Instant,
)
    requires
        reply.flags.ack,
        !reply.flags.rst,
        reply.acknowledgment matches Some(ack) && (ack.at_or_before(connection.iss) || ack.after(
            connection.snd_nxt,
        )),
    ensures
        ({
            let (after, answer) = connection.open_reply(reply, now);
            &&& answer matches Some(segment) && segment.flags.rst && segment.sequence
                == reply.acknowledgment->0.value
            &&& after.state == connection.state
            &&& after.snd_una == connection.snd_una
            &&& after.snd_nxt == connection.snd_nxt
            &&& after.rcv_nxt == connection.rcv_nxt
        }),
{
}

/// A payload that is accepted either starts with bytes received before, which are
/// cut, or starts ahead of the next expected byte; taking in what is left of an
/// in-order one moves the next expected byte to its end.
pub proof fn accepted_payload_extends_the_stream<C: CongestionController>(
    connection: TcpConnection<C>,
    packet: TcpPacket,
)
    requires
        connection.payload_window(packet) is Some,
        packet.payload_len < sequence::HALF_SEQUENCE_SPACE,
    ensures
        ({
            let (trim, offset) = connection.payload_window(packet)->0;
            &&& trim == 0 || offset == 0
            &&& trim < packet.payload_len
            &&& packet.sequence.spec_advance(trim) == connection.rcv_nxt.spec_advance(offset)
            &&& offset == 0 ==> connection.payload_received(
                packet.sequence,
                trim,
                (packet.payload_len - trim) as u32,
                None,
                0,
            ).rcv_nxt == packet.sequence.spec_advance(packet.payload_len)
        }),
{
    let (trim, offset) = connection.payload_window(packet)->0;
    if packet.sequence.before(connection.rcv_nxt) {
        sequence::distance_then_advance(packet.sequence, connection.rcv_nxt);
    } else {
        sequence::distance_then_advance(connection.rcv_nxt, packet.sequence);
    }
}

/// Opening with data on the SYN: the acknowledgment of all of it releases exactly
/// the payload, not the position of the SYN.
pub proof fn syn_data_ack_releases_the_payload<C: CongestionController>(
    connection: TcpConnection<C>,
    payload_len: u32,
)
    requires
        0 < payload_len < u32::MAX,
        connection.fast_open_syn_payload_len == payload_len,
        connection.snd_una == connection.iss.spec_advance((payload_len + 1) as u32),
        connection.fin_sequence is None,
    ensures
        connection.payload_acked(connection.iss) == payload_len,
{
    sequence::advance_then_distance(connection.iss, (payload_len + 1) as u32);
}

/// The acknowledgment of data followed by our FIN releases exactly the data.
pub proof fn fin_ack_releases_the_payload<C: CongestionController>(
    connection: TcpConnection<C>,
    previous_snd_una: TcpSeq,
    payload_len: u32,
)
    requires
        payload_len < u32::MAX,
        connection.fast_open_syn_payload_len == 0,
        connection.fin_sequence == Some(previous_snd_una.spec_advance(payload_len)),
        connection.snd_una == previous_snd_una.spec_advance(payload_len).spec_advance(1),
    ensures
        connection.payload_acked(previous_snd_una) == payload_len,
{
}

} // verus!
