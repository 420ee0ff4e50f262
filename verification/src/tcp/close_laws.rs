//! What a segment makes of a connection that opens or closes.
use vstd::prelude::*;

use crate::congestion::CongestionController;
use crate::tcp::ack_laws;
use crate::tcp::connection_laws;
use crate::tcp::connection_model::TcpConnection;
use crate::tcp::established;
use crate::tcp::rcv_process;
use crate::tcp::rcv_process::TcpRcvProcessArrival;
use crate::tcp::sequence;
use crate::tcp::sequence::TcpSeq;
use crate::tcp::timers;
use crate::tcp::timers::TCP_TIMER_TIME_WAIT;
use crate::tcp::types::{TcpPacket, TcpSegment, TcpState};
use crate::time::Instant;

verus! {

/// The peer's FIN stands at the next expected position.
pub open spec fn brings_fin<C: CongestionController>(
    connection: TcpConnection<C>,
    packet: TcpPacket,
) -> bool {
    packet.flags.fin && packet.sequence == connection.rcv_nxt
}

/// The segment acknowledges everything that was sent.
pub open spec fn acks_all<C: CongestionController>(
    connection: TcpConnection<C>,
    packet: TcpPacket,
) -> bool {
    packet.flags.ack && packet.acknowledgment == Some(connection.snd_nxt)
}

/// The segment is neither a reset nor too old to count.
pub open spec fn counts<C: CongestionController>(
    connection: TcpConnection<C>,
    packet: TcpPacket,
) -> bool {
    !packet.flags.rst && ack_laws::fresh(connection, packet)
        && connection_laws::edges_ordered(connection)
}

/// The state that a segment leads to while both sides close.
pub open spec fn next_closing_state(
    state: TcpState,
    brings_fin: bool,
    acks_all: bool,
) -> TcpState {
    match (state, brings_fin, acks_all) {
        (TcpState::FinWait1, true, true) => TcpState::TimeWait,
        (TcpState::FinWait1, true, false) => TcpState::Closing,
        (TcpState::FinWait1, false, true) => TcpState::FinWait2,
        (TcpState::FinWait2, true, _) => TcpState::TimeWait,
        (TcpState::Closing, _, true) => TcpState::TimeWait,
        (TcpState::LastAck, _, true) => TcpState::Closed,
        _ => state,
    }
}

/// An acknowledgment of everything received, in answer to `packet`.
pub open spec fn answers_with_ack<C: CongestionController>(
    after: TcpConnection<C>,
    segment: TcpSegment,
    packet: TcpPacket,
) -> bool {
    &&& segment.flags.ack && !segment.flags.syn && !segment.flags.rst && !segment.flags.fin
    &&& after.rcv_nxt.value != 0 ==> segment.acknowledgment == after.rcv_nxt.value
    &&& after.snd_nxt.value != 0 ==> segment.sequence == after.snd_nxt.value
    &&& segment.local == packet.local && segment.remote == packet.remote
    &&& segment.payload_len == 0
}

proof fn lemma_all_acknowledged<C: CongestionController>(
    connection: TcpConnection<C>,
    after: TcpConnection<C>,
    packet: TcpPacket,
    now: Instant,
)
    requires
        counts(connection, packet),
    ensures
        ({
            let observed = connection.timestamp_taken(packet, now).ecn_observed(packet);
            let moved = observed.packet_acknowledged(
                after.recovery,
                after.congestion,
                packet,
                now,
            );
            &&& moved.all_acknowledged(packet) == acks_all(connection, packet)
            &&& moved.fin_in_order(packet) == brings_fin(connection, packet)
            &&& moved.state == connection.state
            &&& moved.rcv_nxt == connection.rcv_nxt
            &&& moved.snd_nxt == connection.snd_nxt
            &&& moved.close_reason == connection.close_reason
            &&& moved.sack == connection.sack
        }),
{
    if packet.flags.ack && packet.acknowledgment is Some {
        let ack = packet.acknowledgment->0;
        let una = connection.snd_una;
        sequence::order_within_half_space(una, connection.snd_nxt, connection.snd_nxt);
        sequence::order_within_half_space(una, una, connection.snd_nxt);
        if una.spec_distance_to(ack) < sequence::HALF_SEQUENCE_SPACE {
            sequence::order_within_half_space(una, ack, connection.snd_nxt);
        }
    }
}

/// The close goes through its states: our FIN acknowledged, the peer's FIN in order,
/// in either sequence or at once. The peer's FIN takes one position and is answered;
/// an acknowledgment alone is not.
#[verifier::spinoff_prover]
#[verifier::rlimit(60)]
pub proof fn close_goes_through_its_states<C: CongestionController>(
    connection: TcpConnection<C>,
    after: TcpConnection<C>,
    reply: Option<TcpSegment>,
    packet: TcpPacket,
    now: Instant,
)
    requires
        connection.close_side_received(after, reply, packet, now),
        counts(connection, packet),
        connection.state == TcpState::FinWait1 || connection.state == TcpState::FinWait2
            || connection.state == TcpState::Closing || connection.state == TcpState::LastAck
            || connection.state == TcpState::CloseWait,
    ensures
        ({
            let takes_fin = brings_fin(connection, packet) && (connection.state
                == TcpState::FinWait1 || connection.state == TcpState::FinWait2);
            &&& after.state == next_closing_state(
                connection.state,
                brings_fin(connection, packet),
                acks_all(connection, packet),
            )
            &&& after.rcv_nxt == (if takes_fin {
                connection.rcv_nxt.spec_advance(1)
            } else {
                connection.rcv_nxt
            })
            &&& (reply is Some) == takes_fin
            &&& reply matches Some(segment) ==> answers_with_ack(after, segment, packet)
            &&& after.snd_nxt == connection.snd_nxt
            &&& after.close_reason == connection.close_reason
        }),
{
    lemma_all_acknowledged(connection, after, packet, now);
}

/// TIME-WAIT is entered with its timer running; a FIN that comes again is answered
/// again and starts it anew.
#[verifier::spinoff_prover]
#[verifier::rlimit(60)]
pub proof fn time_wait_runs_its_timer<C: CongestionController>(
    connection: TcpConnection<C>,
    after: TcpConnection<C>,
    reply: Option<TcpSegment>,
    packet: TcpPacket,
    now: Instant,
)
    requires
        connection.close_side_received(after, reply, packet, now),
        counts(connection, packet),
        connection.state != TcpState::SynRcvd,
    ensures
        connection.state != TcpState::TimeWait && after.state == TcpState::TimeWait
            ==> timers::holds(after.timers.active, TCP_TIMER_TIME_WAIT),
        connection.state == TcpState::TimeWait ==> {
            &&& after.state == TcpState::TimeWait
            &&& after.rcv_nxt == connection.rcv_nxt
            &&& (reply is Some) == packet.flags.fin
            &&& reply matches Some(segment) ==> answers_with_ack(after, segment, packet)
            &&& packet.flags.fin ==> timers::holds(after.timers.active, TCP_TIMER_TIME_WAIT)
        },
{
    lemma_all_acknowledged(connection, after, packet, now);
    let observed = connection.timestamp_taken(packet, now).ecn_observed(packet);
    let moved = observed.packet_acknowledged(after.recovery, after.congestion, packet, now);
    timers::starting_touches_one_timer(moved.timers, TCP_TIMER_TIME_WAIT, TCP_TIMER_TIME_WAIT);
}

/// The acknowledgment of our SYN-ACK opens the connection. Payload that comes with it
/// is taken and acknowledged at once; without payload there is no answer.
#[verifier::spinoff_prover]
#[verifier::rlimit(60)]
pub proof fn handshake_ends_with_an_acknowledgment<C: CongestionController>(
    connection: TcpConnection<C>,
    after: TcpConnection<C>,
    reply: Option<TcpSegment>,
    packet: TcpPacket,
    ack: TcpSeq,
    now: Instant,
)
    requires
        connection.close_side_received(after, reply, packet, now),
        connection.state == TcpState::SynRcvd,
        counts(connection, packet),
        !connection.options.negotiated.timestamps,
        ack_laws::acknowledges(packet, ack),
        ack_laws::within_sent(connection, ack),
    ensures
        after.state == TcpState::Established,
        after.snd_una == ack,
        after.snd_nxt == connection.snd_nxt,
        after.snd_wnd == ack_laws::window_of(
            packet.advertised_window,
            connection.options.negotiated.send_window_scale,
        ),
        after.rcv_nxt == (if packet.payload_len != 0 {
            packet.sequence.spec_advance(packet.payload_len)
        } else {
            connection.rcv_nxt
        }),
        (reply is Some) == (packet.payload_len != 0),
        reply matches Some(segment) ==> answers_with_ack(after, segment, packet),
{
    let una = connection.snd_una;
    sequence::order_within_half_space(una, ack, connection.snd_nxt);
    sequence::order_within_half_space(una, una, ack);
}

/// A segment that is too old changes nothing, and a closed connection stays closed.
pub proof fn closed_stays_closed<C: CongestionController>(
    connection: TcpConnection<C>,
    after: TcpConnection<C>,
    reply: Option<TcpSegment>,
    packet: TcpPacket,
    now: Instant,
)
    requires
        connection.close_side_received(after, reply, packet, now),
        connection.state == TcpState::Closed,
    ensures
        after.state == TcpState::Closed,
        after.rcv_nxt == connection.rcv_nxt,
        after.snd_nxt == connection.snd_nxt,
        reply is None,
{
}

/// What the stage is told of a segment: whether the left edge moved, whether the
/// handshake is done, and whether payload came with its last segment. What the
/// session may let go of is what the edge went on by, where neither a SYN with data
/// nor a FIN lies in between.
pub proof fn stage_is_told_what_moved<C: CongestionController>(
    connection: TcpConnection<C>,
    after: TcpConnection<C>,
    arrival: TcpRcvProcessArrival,
    packet: TcpPacket,
    now: Instant,
)
    requires
        rcv_process::processed(connection, after, arrival, packet, now),
    ensures
        arrival.ack_advanced == (after.snd_una != connection.snd_una),
        arrival.established == (after.state == TcpState::Established),
        arrival.established_with_payload ==> connection.state == TcpState::SynRcvd && after.state
            == TcpState::Established && packet.payload_len > 0,
        connection.state == TcpState::SynRcvd && after.state == TcpState::Established
            && packet.payload_len > 0 ==> arrival.established_with_payload,
        connection.fast_open_syn_payload_len == 0 && after.fin_sequence is None
            ==> arrival.acked_tx_len == connection.snd_una.spec_distance_to(after.snd_una),
        connection.fast_open_syn_payload_len == 0 && (after.fin_sequence matches Some(fin)
            && after.snd_una == fin.spec_advance(1)) && after.snd_una != connection.snd_una
            ==> arrival.acked_tx_len + 1 == connection.snd_una.spec_distance_to(after.snd_una),
        after.fast_open_syn_payload_len == (if arrival.acked_tx_len
            >= connection.fast_open_syn_payload_len {
            0
        } else {
            connection.fast_open_syn_payload_len - arrival.acked_tx_len
        }),
{
    assert(established::before_release(connection, after).fin_sequence == after.fin_sequence);
}

/// A reset, or a reply to it, never opens: a connection that was reset is closed.
pub proof fn reset_reaches_the_stage<C: CongestionController>(
    connection: TcpConnection<C>,
    after: TcpConnection<C>,
    arrival: TcpRcvProcessArrival,
    packet: TcpPacket,
    now: Instant,
)
    requires
        rcv_process::processed(connection, after, arrival, packet, now),
        packet.flags.rst,
    ensures
        after.state == TcpState::Closed,
        arrival.control is None,
        !arrival.established,
        !arrival.ack_advanced,
        arrival.acked_tx_len == 0,
{
}

} // verus!
