//! What goes out: the segments of a connection by their fields, and what sending
//! them leaves behind.
use vstd::prelude::*;

use crate::congestion::CongestionController;
use crate::tcp::ack_laws;
use crate::tcp::connection_model;
use crate::tcp::connection_model::{TcpConnection, TcpConnectionError};
use crate::tcp::connection_options;
use crate::tcp::recovery::TcpRecoveryState;
use crate::tcp::recovery_model;
use crate::tcp::recovery_model::TcpSentSample;
use crate::tcp::sack;
use crate::tcp::sequence;
use crate::tcp::sequence::TcpSeq;
use crate::tcp::timer_laws;
use crate::tcp::timers;
use crate::tcp::timers::{
    TCP_TIMER_PERSIST, TCP_TIMER_RACK, TCP_TIMER_RETRANSMIT, TCP_TIMER_TLP,
};
use crate::tcp::types;
use crate::tcp::types::{
    IpEcnCodepoint, TcpCloseReason, TcpPacket, TcpSegment, TcpState,
};
use crate::time::Instant;

verus! {

/// A window divided by two to a scale of at most fourteen, as far as it fits.
pub open spec fn field_of(window: u32, scale: Option<u8>) -> int {
    let shift = match scale {
        Some(scale) => vstd::math::min(scale as int, 14),
        None => 0,
    };
    vstd::math::min(
        window as int / vstd::arithmetic::power2::pow2(shift as nat) as int,
        u16::MAX as int,
    )
}

/// The window, the offers and the timestamp of a segment: the room that is left,
/// under the agreed scale, and an echo of the peer's latest timestamp beside one of
/// our own that is later than all before.
pub open spec fn describes<C: CongestionController>(
    connection: TcpConnection<C>,
    segment: TcpSegment,
) -> bool {
    &&& segment.remote == connection.remote
    &&& segment.advertised_window == field_of(
        connection.rcv_wnd,
        connection.options.negotiated.receive_window_scale,
    )
    &&& segment.capabilities == connection.options.local_capabilities
    &&& (segment.timestamp is Some) == (connection.options.negotiated.timestamps
        || connection.options.local_capabilities.timestamps)
    &&& segment.timestamp matches Some(timestamp) ==> {
        &&& timestamp.tsval != 0
        &&& (TcpSeq { value: timestamp.tsval }).after(
            TcpSeq { value: connection.timestamps.last_local },
        )
        &&& timestamp.tsecr == (match connection.timestamps.recent_remote {
            Some(recent) => recent,
            None => 0,
        })
    }
}

/// The blocks of a segment: a range that arrived twice comes first, then the
/// out-of-order ranges, newest first, as far as there is room.
pub open spec fn reports<C: CongestionController>(
    connection: TcpConnection<C>,
    segment: TcpSegment,
) -> bool {
    let blocks = segment.sack_blocks;
    let ranges = connection.sack.ranges;
    if !connection.options.negotiated.sack {
        blocks == sack::no_blocks()
    } else if connection.sack.duplicate is Some {
        &&& blocks.first == connection.sack.duplicate
        &&& blocks.second == ranges.first
        &&& blocks.third == ranges.second
        &&& blocks.fourth == ranges.third
    } else {
        blocks == ranges
    }
}

/// The flags of a segment besides SYN, ACK, RST and FIN: none but what tells the peer
/// of congestion marks, in one bit or as a counter of three.
pub open spec fn echoes<C: CongestionController>(
    connection: TcpConnection<C>,
    segment: TcpSegment,
) -> bool {
    &&& !segment.flags.psh && !segment.flags.urg
    &&& if connection.options.negotiated.accurate_ecn {
        (if segment.flags.ns {
            4int
        } else {
            0
        }) + (if segment.flags.cwr {
            2int
        } else {
            0
        }) + (if segment.flags.ece {
            1int
        } else {
            0
        }) == connection.ecn.received_ce_counter as int % 8
    } else {
        segment.flags.ece == connection.ecn.ece_ack && !segment.flags.cwr && !segment.flags.ns
    }
}

/// The window field of a segment is the room under the agreed scale.
pub proof fn field_is_the_room(window: u32, scale: Option<u8>)
    ensures
        connection_options::window_field(window, connection_options::applied_scale(scale))
            == field_of(window, scale),
{
    let shift = connection_options::applied_scale(scale) as nat;
    vstd::arithmetic::power2::lemma_pow2_pos(shift);
    vstd::arithmetic::div_mod::lemma_div_pos_is_pos(
        window as int,
        vstd::arithmetic::power2::pow2(shift) as int,
    );
}

/// A data segment of an established connection acknowledges everything received so
/// far: it has the ACK flag and the next expected position. Its data starts at the
/// right edge, or where a range goes out again, at the start of that range.
pub proof fn data_segment_acknowledges<C: CongestionController>(
    connection: TcpConnection<C>,
    payload_len: usize,
    now: Instant,
)
    requires
        connection.state == TcpState::Established,
        connection.local is Some,
        connection.sack.ranges.well_formed(),
    ensures
        connection.transmission(payload_len, now) matches Ok(segment) && {
            &&& timer_laws::carries(
                connection,
                segment,
                match connection.tx_intent {
                    Some(intent) => intent.sequence.value,
                    None => connection.snd_nxt.value,
                },
                payload_len as int,
            )
            &&& segment.flags.psh && !segment.flags.urg
            &&& describes(connection, segment)
            &&& reports(connection, segment)
            &&& segment.fast_open_cookie is None
            &&& segment.ip_ecn == (if connection.options.negotiated.ecn && payload_len != 0
                && connection.tx_intent is None {
                Some(IpEcnCodepoint::Ect0)
            } else {
                None
            })
            &&& connection.ecn.cwr ==> segment.flags.cwr
            &&& !connection.options.negotiated.accurate_ecn ==> segment.flags.ece
                == connection.ecn.ece_ack && segment.flags.cwr == connection.ecn.cwr
        },
{
    field_is_the_room(connection.rcv_wnd, connection.options.negotiated.receive_window_scale);
}

/// Making a data segment confirms a reduction and reports a duplicate once, and
/// moves nothing else.
pub proof fn data_segment_moves_nothing<C: CongestionController>(
    connection: TcpConnection<C>,
    now: Instant,
)
    ensures
        ({
            let after = connection.after_transmission(now);
            &&& timer_laws::stays_in_place(connection, after)
            &&& after.recovery == connection.recovery
            &&& after.congestion == connection.congestion
            &&& after.timers == connection.timers
            &&& after.tx_intent == connection.tx_intent
            &&& after.sack.ranges == connection.sack.ranges
            &&& after.timestamps.recent_remote == connection.timestamps.recent_remote
            &&& connection.state == TcpState::Established && connection.local is Some ==> {
                &&& !after.ecn.cwr
                &&& connection.options.negotiated.sack ==> after.sack.duplicate is None
            }
        }),
{
}

/// The SYN of an active open: at the initial sequence number, with what is offered
/// and the cookie at hand.
pub proof fn opening_segment_is_a_syn<C: CongestionController>(
    connection: TcpConnection<C>,
    payload_len: usize,
    now: Instant,
)
    requires
        connection.state == TcpState::SynSent,
        connection.local is Some,
        connection.tx_intent is None,
    ensures
        connection.transmission(payload_len, now) matches Ok(segment) && {
            &&& Some(segment.local) == connection.local
            &&& segment.sequence == connection.iss.value
            &&& segment.payload_len == payload_len
            &&& segment.flags.syn && !segment.flags.ack && !segment.flags.rst && !segment.flags.fin
            &&& segment.flags.ece == connection.options.local_capabilities.ecn
            &&& segment.flags.cwr == connection.options.local_capabilities.ecn
            &&& segment.fast_open_cookie == connection.fast_open_cookie
            &&& segment.sack_blocks == sack::no_blocks()
            &&& describes(connection, segment)
        },
{
    field_is_the_room(connection.rcv_wnd, connection.options.negotiated.receive_window_scale);
}

/// Nothing goes out without an address of our own, nor in any other state.
pub proof fn transmission_needs_state_and_address<C: CongestionController>(
    connection: TcpConnection<C>,
    payload_len: usize,
    now: Instant,
)
    ensures
        connection.transmission(payload_len, now) is Ok <==> (connection.state == TcpState::SynSent
            || connection.state == TcpState::Established) && connection.local is Some,
        connection.state != TcpState::SynSent && connection.state != TcpState::Established
            ==> connection.transmission(payload_len, now) == Err::<
            TcpSegment,
            TcpConnectionError,
        >(TcpConnectionError::TransmitOutsideEstablished),
{
}

/// New data that went out is outstanding: its range starts where the right edge
/// stood and the right edge stands behind it now; it counts as in flight, and the
/// controller knows of it.
pub proof fn new_data_is_recorded<C: CongestionController>(
    connection: TcpConnection<C>,
    after: TcpConnection<C>,
    result: Result<u16, TcpConnectionError>,
    payload_len: u32,
    now: Instant,
)
    requires
        connection.committed(after, result, payload_len as usize, now),
        connection.state == TcpState::Established,
        connection.tx_intent is None,
        connection.recovery@.bytes_in_flight + payload_len <= u32::MAX,
        connection.recovery@.next_packet_number < u64::MAX,
    ensures
        result matches Ok(mask) && {
            &&& timers::holds(mask, TCP_TIMER_TLP) == (after.recovery@.bytes_in_flight != 0)
            &&& timers::holds(mask, TCP_TIMER_RACK) == (exists|i: int|
                0 <= i < after.recovery@.samples.len() && (
                #[trigger] after.recovery@.samples[i]).pending())
            &&& !timers::holds(mask, TCP_TIMER_PERSIST)
        },
        after.snd_nxt == connection.snd_nxt.spec_advance(payload_len),
        after.recovery@.samples == connection.recovery@.samples.push(
            TcpSentSample {
                packet_number: connection.recovery@.next_packet_number,
                sequence: connection.snd_nxt,
                end_sequence: after.snd_nxt,
                bytes: payload_len,
                payload_len,
                retransmitted: false,
                lost: false,
                rack_deadline: None,
                sent_at: now,
            },
        ),
        after.recovery@.bytes_in_flight == connection.recovery@.bytes_in_flight + payload_len,
        after.recovery@.next_packet_number == connection.recovery@.next_packet_number + 1,
        after.recovery@.tlp_timer_armed,
        after.congestion == connection.congestion.after_packet_sent(
            connection.recovery@.next_packet_number,
            payload_len,
            connection.recovery@.bytes_in_flight,
            now,
        ),
        connection.recovery@.episode.active ==> after.recovery@.episode.new_data
            == vstd::math::min(
            connection.recovery@.episode.new_data + payload_len,
            u32::MAX as int,
        ),
        !connection.recovery@.episode.active ==> after.recovery@.episode
            == connection.recovery@.episode,
        after.recovery@.holes == connection.recovery@.holes,
        timer_laws::same_ends(connection, after),
        after.sack == connection.sack && after.ecn == connection.ecn,
        after.timestamps == connection.timestamps,
        after.retransmit_timeout == connection.retransmit_timeout,
        after.state == connection.state,
        after.snd_una == connection.snd_una,
        after.snd_wnd == connection.snd_wnd,
        after.rcv_nxt == connection.rcv_nxt,
        after.tx_intent is None,
        timers::holds(after.timers.active, TCP_TIMER_TLP) == (
        after.recovery@.bytes_in_flight != 0),
        timers::holds(after.timers.active, TCP_TIMER_RACK) == (exists|i: int|
            0 <= i < after.recovery@.samples.len() && (
            #[trigger] after.recovery@.samples[i]).pending()),
{
    let rack = recovery_model::earliest_deadline(after.recovery@.samples) is Some;
    let t1 = connection.timers.switched(TCP_TIMER_RACK, rack);
    ack_laws::switching_touches_one_timer(connection.timers, TCP_TIMER_RACK, rack, TCP_TIMER_RACK);
    ack_laws::switching_touches_one_timer(
        t1,
        TCP_TIMER_TLP,
        after.recovery@.bytes_in_flight != 0,
        TCP_TIMER_RACK,
    );
    ack_laws::switching_touches_one_timer(
        t1,
        TCP_TIMER_TLP,
        after.recovery@.bytes_in_flight != 0,
        TCP_TIMER_TLP,
    );
    recovery_model::earliest_is_least(after.recovery@.samples);
    ack_laws::mask_holds_what_it_is_made_of(
        rack,
        after.recovery@.bytes_in_flight != 0,
        TCP_TIMER_RACK,
    );
    ack_laws::mask_holds_what_it_is_made_of(
        rack,
        after.recovery@.bytes_in_flight != 0,
        TCP_TIMER_TLP,
    );
    ack_laws::mask_holds_what_it_is_made_of(
        rack,
        after.recovery@.bytes_in_flight != 0,
        TCP_TIMER_PERSIST,
    );
}

/// A range that went out again is not new: nothing moves, nothing is recorded, and
/// the intention is fulfilled.
pub proof fn resent_data_is_not_recorded<C: CongestionController>(
    connection: TcpConnection<C>,
    after: TcpConnection<C>,
    result: Result<u16, TcpConnectionError>,
    payload_len: usize,
    now: Instant,
)
    requires
        connection.committed(after, result, payload_len, now),
        connection.state == TcpState::Established || connection.state == TcpState::SynSent,
        connection.tx_intent is Some,
    ensures
        result is Ok,
        after.tx_intent is None,
        timer_laws::stays_in_place(connection, after),
        after.recovery == connection.recovery,
        after.congestion == connection.congestion,
        after.fast_open_syn_payload_len == connection.fast_open_syn_payload_len,
        connection.state == TcpState::Established && connection.snd_wnd == 0
            && connection.recovery@.bytes_in_flight != 0 ==> timers::holds(
            after.timers.active,
            TCP_TIMER_PERSIST,
        ),
        connection.state == TcpState::Established && connection.snd_wnd != 0 ==> after.timers
            == connection.timers,
{
    timers::starting_touches_one_timer(connection.timers, TCP_TIMER_PERSIST, TCP_TIMER_PERSIST);
}

/// The SYN takes one position and its payload the ones behind it; it is outstanding
/// and its timer runs.
pub proof fn opening_data_is_recorded<C: CongestionController>(
    connection: TcpConnection<C>,
    after: TcpConnection<C>,
    result: Result<u16, TcpConnectionError>,
    payload_len: u32,
    now: Instant,
)
    requires
        connection.committed(after, result, payload_len as usize, now),
        connection.state == TcpState::SynSent,
        connection.tx_intent is None,
        payload_len < u32::MAX,
    ensures
        result == Ok::<u16, TcpConnectionError>(0),
        after.snd_nxt == connection.iss.spec_advance((payload_len + 1) as u32),
        after.snd_una == connection.snd_una,
        after.state == TcpState::SynSent,
        timer_laws::same_ends(connection, after),
        after.rcv_nxt == connection.rcv_nxt,
        after.snd_wnd == connection.snd_wnd,
        after.fast_open_syn_payload_len == payload_len,
        after.recovery@.samples.len() == connection.recovery@.samples.len() + 1,
        ({
            let range = after.recovery@.samples.last();
            &&& range.sequence == connection.iss
            &&& range.end_sequence == after.snd_nxt
            &&& range.bytes == payload_len && range.payload_len == payload_len
            &&& range.sent_at == now && !range.lost && !range.retransmitted
        }),
        after.congestion == connection.congestion.after_packet_sent(
            connection.recovery@.next_packet_number,
            (payload_len + 1) as u32,
            connection.recovery@.bytes_in_flight,
            now,
        ),
        timers::holds(after.timers.active, TCP_TIMER_RETRANSMIT),
{
    timers::starting_touches_one_timer(
        connection.timers,
        TCP_TIMER_RETRANSMIT,
        TCP_TIMER_RETRANSMIT,
    );
}

/// A commit in another state, or of more than fits the sequence space, is an error
/// and changes nothing.
pub proof fn bad_commit_changes_nothing<C: CongestionController>(
    connection: TcpConnection<C>,
    after: TcpConnection<C>,
    result: Result<u16, TcpConnectionError>,
    payload_len: usize,
    now: Instant,
)
    requires
        connection.committed(after, result, payload_len, now),
    ensures
        result is Ok <==> {
            &&& connection.state == TcpState::SynSent || connection.state == TcpState::Established
            &&& connection.tx_intent is Some || payload_len <= u32::MAX
        },
        result is Err ==> after == connection,
{
}

/// The room of one segment: the peer's limit where it set a smaller one.
pub open spec fn largest_payload<C: CongestionController>(connection: TcpConnection<C>) -> int {
    match connection.options.negotiated.send_max_segment_size {
        Some(limit) if limit != 0 => vstd::math::min(
            limit as int,
            1440,
        ),
        _ => 1440,
    }
}

/// Outside a loss episode an established connection may send as much as is pending,
/// fits one segment, and fits both the peer's window and the congestion window
/// beside what is in flight; all of that, unless the pacing says to wait.
pub proof fn budget_is_the_least_room<C: CongestionController>(
    connection: TcpConnection<C>,
    pending: usize,
    room: u32,
)
    requires
        connection.state == TcpState::Established,
        connection.tx_intent is None,
        !connection.recovery@.episode.active,
        connection.recovery@.bytes_in_flight <= connection.snd_wnd,
        connection.recovery@.bytes_in_flight
            <= connection.congestion.spec_metrics().congestion_window,
        room <= pending,
        room <= largest_payload(connection),
        room <= connection.snd_wnd - connection.recovery@.bytes_in_flight,
        room <= connection.congestion.spec_metrics().congestion_window
            - connection.recovery@.bytes_in_flight,
        room == pending || room == largest_payload(connection) || room == connection.snd_wnd
            - connection.recovery@.bytes_in_flight || room
            == connection.congestion.spec_metrics().congestion_window
            - connection.recovery@.bytes_in_flight,
    ensures
        connection.payload_budget(pending) == (if connection.congestion.spec_next_send_delay(
            room,
        ) is Some {
            0
        } else {
            room as int
        }),
{
}

/// No data goes beyond a full window of either kind.
pub proof fn full_window_sends_nothing<C: CongestionController>(
    connection: TcpConnection<C>,
    pending: usize,
)
    requires
        connection.state == TcpState::Established,
        connection.tx_intent is None,
        connection.recovery@.bytes_in_flight >= connection.snd_wnd || (
        !connection.recovery@.episode.active && connection.recovery@.bytes_in_flight
            >= connection.congestion.spec_metrics().congestion_window),
    ensures
        connection.payload_budget(pending) == 0,
{
}

/// A range that goes out again is bounded by its own length and nothing else; a SYN
/// carries data only with a cookie at hand; other states send none.
pub proof fn budget_outside_new_data<C: CongestionController>(
    connection: TcpConnection<C>,
    pending: usize,
)
    ensures
        connection.tx_intent matches Some(intent) ==> connection.payload_budget(pending)
            == vstd::math::min(pending as int, intent.payload_len as int),
        connection.tx_intent is None && connection.state == TcpState::SynSent
            ==> connection.payload_budget(pending) == (
        if connection.options.local_capabilities.fast_open && connection.fast_open_cookie
            is Some {
            vstd::math::min(pending as int, largest_payload(connection))
        } else {
            0
        }),
        connection.tx_intent is None && connection.state != TcpState::SynSent && connection.state
            != TcpState::Established ==> connection.payload_budget(pending) == 0,
{
}

/// Our FIN acknowledges everything received, carries no data, and stands behind
/// everything sent.
pub proof fn fin_segment_is_last<C: CongestionController>(
    connection: TcpConnection<C>,
    has_pending_tx: bool,
    now: Instant,
)
    requires
        connection.state == TcpState::FinWait1 || connection.state == TcpState::LastAck,
        connection.local is Some,
    ensures
        ({
            let (after, reply) = connection.ready_step(has_pending_tx, now);
            let position = match connection.fin_sequence {
                Some(sequence) => sequence,
                None => connection.snd_nxt,
            };
            &&& reply matches Some(segment) && {
                &&& Some(segment.local) == connection.local
                &&& segment.sequence == position.value
                &&& segment.acknowledgment == connection.rcv_nxt.value
                &&& segment.payload_len == 0
                &&& segment.flags.fin && segment.flags.ack && !segment.flags.syn
                    && !segment.flags.rst
                &&& !segment.flags.psh && !segment.flags.urg && !segment.flags.ece
                    && !segment.flags.cwr
                &&& segment.sack_blocks == sack::no_blocks() && segment.fast_open_cookie is None
                &&& describes(connection, segment)
            }
            &&& after.fin_sequence == Some(position)
            &&& after.snd_nxt == (if connection.fin_sequence is None {
                connection.snd_nxt.spec_advance(1)
            } else {
                connection.snd_nxt
            })
            &&& after.snd_una == connection.snd_una && after.rcv_nxt == connection.rcv_nxt
            &&& after.state == connection.state && after.recovery == connection.recovery
        }),
{
    field_is_the_room(connection.rcv_wnd, connection.options.negotiated.receive_window_scale);
}

/// A connection that got its turn in another state sends its bare SYN, once nothing
/// of it is in flight, or nothing.
pub proof fn turn_sends_a_bare_syn<C: CongestionController>(
    connection: TcpConnection<C>,
    has_pending_tx: bool,
    now: Instant,
)
    requires
        connection.state != TcpState::FinWait1,
        connection.state != TcpState::LastAck,
        connection.local is Some,
        connection.tx_intent is None,
    ensures
        ({
            let (after, reply) = connection.ready_step(has_pending_tx, now);
            &&& (reply is Some) == (connection.state == TcpState::SynSent && !has_pending_tx
                && connection.recovery@.bytes_in_flight == 0)
            &&& reply matches Some(segment) ==> segment.flags.syn && !segment.flags.ack
                && segment.payload_len == 0 && segment.sequence == connection.iss.value
            &&& timer_laws::stays_in_place(connection, after)
            &&& after.recovery == connection.recovery
        }),
{
}

/// A close turns to the state that sends a FIN, from the two states in which our
/// side is open, and is for the session's sake.
pub proof fn close_request_turns_to_the_fin<C: CongestionController>(connection: TcpConnection<C>)
    ensures
        ({
            let after = connection.closing();
            &&& connection.state == TcpState::Established ==> after.state == TcpState::FinWait1
            &&& connection.state == TcpState::CloseWait ==> after.state == TcpState::LastAck
            &&& connection.state == TcpState::Established || connection.state
                == TcpState::CloseWait ==> after.close_reason == Some(
                TcpCloseReason::LocalRequest,
            ) && after.snd_nxt == connection.snd_nxt && after.rcv_nxt == connection.rcv_nxt
                && after.fin_sequence == connection.fin_sequence
            &&& connection.state != TcpState::Established && connection.state
                != TcpState::CloseWait ==> after == connection
        }),
{
}

/// A bare acknowledgment in answer to a segment stands at the right edge and names
/// the next expected position, once both were set.
pub proof fn control_ack_names_both_edges<C: CongestionController>(
    connection: TcpConnection<C>,
    packet: TcpPacket,
    now: Instant,
)
    requires
        connection.sack.ranges.well_formed(),
        connection.snd_nxt.value != 0,
        connection.rcv_nxt.value != 0,
    ensures
        ({
            let segment = connection.control(packet, types::ack_only(), None, now);
            &&& segment.local == packet.local && segment.remote == packet.remote
            &&& segment.sequence == connection.snd_nxt.value
            &&& segment.acknowledgment == connection.rcv_nxt.value
            &&& segment.flags.ack && !segment.flags.syn && !segment.flags.rst
                && !segment.flags.fin
            &&& segment.payload_len == 0 && segment.ip_ecn is None
                && segment.fast_open_cookie is None
            &&& echoes(connection, segment)
            &&& reports(connection, segment)
            &&& packet.remote == connection.remote ==> describes(connection, segment)
        }),
{
    field_is_the_room(connection.rcv_wnd, connection.options.negotiated.receive_window_scale);
}

/// A SYN-ACK stands at our initial sequence number, one before everything else, and
/// acknowledges the peer's SYN with what was taken behind it.
pub proof fn syn_ack_answers_a_syn<C: CongestionController>(
    connection: TcpConnection<C>,
    packet: TcpPacket,
    accepted_len: u32,
    now: Instant,
)
    requires
        connection.iss.value != 0,
        packet.sequence.spec_advance(1).spec_advance(accepted_len).value != 0,
    ensures
        ({
            let after = connection.syn_accepted(packet, accepted_len, now);
            let segment = after.control(
                packet,
                connection_model::syn_ack(after.options.negotiated.ecn),
                None,
                now,
            );
            &&& after.state == TcpState::SynRcvd
            &&& after.irs == packet.sequence
            &&& after.rcv_nxt == packet.sequence.spec_advance(1).spec_advance(accepted_len)
            &&& after.iss == connection.iss
            &&& after.snd_una == connection.iss
            &&& after.snd_nxt == connection.iss.spec_advance(1)
            &&& after.snd_wnd == ack_laws::window_of(
                packet.advertised_window,
                after.options.negotiated.send_window_scale,
            )
            &&& segment.flags.syn && segment.flags.ack && !segment.flags.rst && !segment.flags.fin
            &&& segment.sequence == connection.iss.value
            &&& segment.acknowledgment == after.rcv_nxt.value
            &&& segment.local == packet.local && segment.remote == packet.remote
            &&& segment.payload_len == 0 && segment.ip_ecn is None
            &&& segment.fast_open_cookie == after.fast_open_cookie
            &&& !segment.flags.psh && !segment.flags.urg
            &&& !after.options.negotiated.accurate_ecn ==> !segment.flags.cwr && !segment.flags.ns
                && segment.flags.ece == (after.options.negotiated.ecn || after.ecn.ece_ack)
            &&& packet.remote == after.remote ==> describes(after, segment)
            &&& timer_laws::same_ends(
                connection,
                (TcpConnection {
                    irs: connection.irs,
                    options: connection.options,
                    ..after
                }),
            )
        }),
{
    let after = connection.syn_accepted(packet, accepted_len, now);
    field_is_the_room(after.rcv_wnd, after.options.negotiated.receive_window_scale);
}

/// A connection without an initial sequence number of its own starts at one.
pub proof fn unset_initial_sequence_is_one<C: CongestionController>(
    connection: TcpConnection<C>,
    packet: TcpPacket,
    accepted_len: u32,
    now: Instant,
)
    requires
        connection.iss.value == 0,
    ensures
        connection.syn_accepted(packet, accepted_len, now).iss.value == 1,
        connection.syn_accepted(packet, accepted_len, now).snd_una.value == 1,
        connection.syn_accepted(packet, accepted_len, now).snd_nxt.value == 2,
{
}

/// What the peer's SYN-ACK leaves: the peer's initial sequence number, its window,
/// and an acknowledgment of it that stands behind our SYN.
pub proof fn open_reply_is_taken_in<C: CongestionController>(
    connection: TcpConnection<C>,
    packet: TcpPacket,
    ack: TcpSeq,
    now: Instant,
)
    requires
        packet.flags.syn,
        !packet.flags.rst,
        ack_laws::acknowledges(packet, ack),
        connection.iss.spec_distance_to(connection.snd_nxt) < sequence::HALF_SEQUENCE_SPACE,
        connection.snd_una == connection.iss,
        0 < connection.iss.spec_distance_to(ack) <= connection.iss.spec_distance_to(
            connection.snd_nxt,
        ),
        !connection.options.local_capabilities.timestamps,
    ensures
        ({
            let (after, reply) = connection.open_reply(packet, now);
            let next = packet.sequence.spec_advance(1).spec_advance(packet.payload_len);
            &&& after.state == TcpState::Established
            &&& after.irs == packet.sequence
            &&& after.rcv_nxt == next
            &&& after.snd_una == ack
            &&& after.snd_nxt == connection.snd_nxt
            &&& after.snd_wnd == ack_laws::window_of(
                packet.advertised_window,
                after.options.negotiated.send_window_scale,
            )
            &&& !timers::holds(after.timers.active, TCP_TIMER_RETRANSMIT)
            &&& packet.fast_open_cookie matches Some(cookie) ==> cookie.len != 0
                ==> after.fast_open_cookie == Some(cookie)
            &&& reply matches Some(segment) && {
                &&& segment.flags.ack && !segment.flags.syn && !segment.flags.rst
                    && !segment.flags.fin
                &&& next.value != 0 ==> segment.acknowledgment == next.value
                &&& connection.snd_nxt.value != 0 ==> segment.sequence == connection.snd_nxt.value
                &&& segment.local == packet.local && segment.remote == packet.remote
                &&& segment.payload_len == 0
            }
        }),
{
    sequence::order_within_half_space(connection.iss, ack, connection.snd_nxt);
    sequence::order_within_half_space(connection.iss, connection.iss, ack);
    timers::stopping_touches_one_timer(
        connection.timers,
        TCP_TIMER_RETRANSMIT,
        TCP_TIMER_RETRANSMIT,
    );
}

/// Two SYNs that cross: each side answers the other's SYN with a SYN-ACK and waits
/// for the acknowledgment of its own.
pub proof fn crossed_syns_are_answered<C: CongestionController>(
    connection: TcpConnection<C>,
    packet: TcpPacket,
    now: Instant,
)
    requires
        packet.flags.syn,
        !packet.flags.ack,
        !packet.flags.rst,
        !connection.options.local_capabilities.timestamps,
        connection.iss.value != 0,
    ensures
        ({
            let (after, reply) = connection.open_reply(packet, now);
            let next = packet.sequence.spec_advance(1);
            &&& after.state == TcpState::SynRcvd
            &&& after.irs == packet.sequence && after.rcv_nxt == next
            &&& after.snd_una == connection.snd_una && after.snd_nxt == connection.snd_nxt
            &&& reply matches Some(segment) && {
                &&& segment.flags.syn && segment.flags.ack && !segment.flags.rst
                &&& segment.sequence == connection.iss.value
                &&& next.value != 0 ==> segment.acknowledgment == next.value
            }
        }),
{
}

/// The last segment of the handshake opens the connection at the position that it
/// acknowledges and under the window that it tells, and is not answered.
pub proof fn final_ack_opens<C: CongestionController>(
    connection: TcpConnection<C>,
    packet: TcpPacket,
    ack: TcpSeq,
    now: Instant,
)
    requires
        ack_laws::acknowledges(packet, ack),
        ack_laws::within_sent(connection, ack),
        ack_laws::fresh(connection, packet),
        !packet.flags.rst,
    ensures
        ({
            let (after, reply) = connection.final_ack(packet, now);
            &&& after.state == TcpState::Established
            &&& after.snd_una == ack
            &&& after.snd_nxt == connection.snd_nxt && after.rcv_nxt == connection.rcv_nxt
            &&& after.snd_wnd == ack_laws::window_of(
                packet.advertised_window,
                connection.options.negotiated.send_window_scale,
            )
            &&& !timers::holds(after.timers.active, TCP_TIMER_RETRANSMIT)
            &&& reply is None
        }),
{
    sequence::order_within_half_space(connection.snd_una, ack, connection.snd_nxt);
    timers::stopping_touches_one_timer(
        connection.timers,
        TCP_TIMER_RETRANSMIT,
        TCP_TIMER_RETRANSMIT,
    );
}

/// An acknowledgment of something else is answered with a reset at the position that
/// it names, and opens nothing.
pub proof fn wrong_final_ack_is_reset<C: CongestionController>(
    connection: TcpConnection<C>,
    packet: TcpPacket,
    ack: TcpSeq,
    now: Instant,
)
    requires
        ack_laws::acknowledges(packet, ack),
        crate::tcp::connection_laws::edges_ordered(connection),
        !ack_laws::within_sent(connection, ack),
        ack_laws::fresh(connection, packet),
        !packet.flags.rst,
    ensures
        ({
            let (after, reply) = connection.final_ack(packet, now);
            &&& after.state == connection.state
            &&& after.snd_una == connection.snd_una && after.snd_wnd == connection.snd_wnd
            &&& reply matches Some(segment) && segment.flags.rst && !segment.flags.ack
                && segment.sequence == ack.value && segment.remote == packet.remote
        }),
{
    if connection.snd_una.spec_distance_to(ack) < sequence::HALF_SEQUENCE_SPACE {
        sequence::order_within_half_space(connection.snd_una, ack, connection.snd_nxt);
    }
}

/// A connection opens with its initial sequence number as the left edge, and one
/// position taken by the SYN.
pub proof fn connecting_takes_one_position<C: CongestionController>(
    connection: TcpConnection<C>,
    initial_sequence: u32,
)
    ensures
        ({
            let after = connection.connecting(initial_sequence);
            &&& after.state == TcpState::SynSent
            &&& after.iss.value == initial_sequence && after.snd_una.value == initial_sequence
            &&& after.snd_una.spec_distance_to(after.snd_nxt) == 1
            &&& after.close_reason is None && after.fast_open_syn_payload_len == 0
            &&& after.options == connection.options && after.recovery == connection.recovery
        }),
{
    sequence::advance_then_distance(TcpSeq { value: initial_sequence }, 1);
}

/// A reset ends an open only where it acknowledges the SYN; another, and a segment
/// without a SYN, is ignored.
pub proof fn reset_ends_an_open<C: CongestionController>(
    connection: TcpConnection<C>,
    packet: TcpPacket,
    now: Instant,
)
    requires
        connection.snd_una == connection.iss,
        connection.iss.spec_distance_to(connection.snd_nxt) < sequence::HALF_SEQUENCE_SPACE,
    ensures
        packet.flags.rst && packet.flags.ack && packet.acknowledgment is Some && 0
            < connection.iss.spec_distance_to(packet.acknowledgment->0)
            <= connection.iss.spec_distance_to(connection.snd_nxt) ==> {
            let (after, reply) = connection.open_reply(packet, now);
            &&& after.state == TcpState::Closed
            &&& after.close_reason == Some(TcpCloseReason::RemoteReset)
            &&& !timers::holds(after.timers.active, TCP_TIMER_RETRANSMIT)
            &&& reply is None
        },
        packet.flags.rst && packet.acknowledgment is None ==> connection.open_reply(packet, now)
            == (connection, None::<TcpSegment>),
        !packet.flags.rst && !packet.flags.syn && !packet.flags.ack ==> connection.open_reply(
            packet,
            now,
        ) == (connection, None::<TcpSegment>),
{
    timers::stopping_touches_one_timer(
        connection.timers,
        TCP_TIMER_RETRANSMIT,
        TCP_TIMER_RETRANSMIT,
    );
    if packet.acknowledgment is Some {
        let ack = packet.acknowledgment->0;
        if connection.iss.spec_distance_to(ack) < sequence::HALF_SEQUENCE_SPACE {
            sequence::order_within_half_space(connection.iss, ack, connection.snd_nxt);
            sequence::order_within_half_space(connection.iss, connection.iss, ack);
        }
    }
}

/// Numbers that were never set are stood in for: a control segment without a right
/// edge stands at the left edge, or behind our SYN, or at one; without a next
/// expected position it acknowledges the peer's SYN, or one. Without the ACK flag it
/// acknowledges nothing.
pub proof fn unset_numbers_are_stood_in_for<C: CongestionController>(
    connection: TcpConnection<C>,
    packet: TcpPacket,
    at: u32,
    now: Instant,
)
    ensures
        ({
            let ack = connection.control(packet, types::ack_only(), None, now);
            let rst = connection.control(packet, types::rst_only(), Some(at), now);
            &&& connection.snd_nxt.value == 0 && connection.snd_una.value != 0 ==> ack.sequence
                == connection.snd_una.value
            &&& connection.snd_nxt.value == 0 && connection.snd_una.value == 0
                && connection.iss.value != 0 ==> ack.sequence == connection.iss.spec_advance(
                1,
            ).value
            &&& connection.snd_nxt.value == 0 && connection.snd_una.value == 0
                && connection.iss.value == 0 ==> ack.sequence == 1
            &&& connection.rcv_nxt.value == 0 && connection.irs.value != 0 ==> ack.acknowledgment
                == connection.irs.spec_advance(1).value
            &&& connection.rcv_nxt.value == 0 && connection.irs.value == 0 ==> ack.acknowledgment
                == 1
            &&& rst.sequence == at && rst.acknowledgment == 0
            &&& rst.flags.rst && !rst.flags.ack && !rst.flags.syn && !rst.flags.fin
            &&& rst.sack_blocks == sack::no_blocks()
            &&& rst.remote == packet.remote && rst.local == packet.local
        }),
{
}

/// A new connection is closed, with nothing sent or received, windows of 65535 bytes,
/// nothing offered and no timer running.
pub proof fn new_connection_is_closed<C: CongestionController>(
    connection_id: Option<types::TcpConnectionId>,
    owner_worker: types::DataWorkerId,
    local_port: u16,
    local: Option<types::SocketAddress>,
    remote: types::SocketAddress,
    recovery: TcpRecoveryState,
)
    ensures
        ({
            let fresh = TcpConnection::<C>::fresh(
                connection_id,
                owner_worker,
                local_port,
                local,
                remote,
                recovery,
            );
            &&& fresh.state == TcpState::Closed && fresh.close_reason is None
            &&& fresh.connection_id == connection_id && fresh.owner_worker == owner_worker
            &&& fresh.local_port == local_port && fresh.local == local && fresh.remote == remote
            &&& fresh.iss.value == 0 && fresh.irs.value == 0
            &&& fresh.snd_una.value == 0 && fresh.snd_nxt.value == 0 && fresh.rcv_nxt.value == 0
            &&& fresh.snd_wnd == 65_535 && fresh.rcv_wnd == 65_535
            &&& fresh.fin_sequence is None && fresh.tx_intent is None
            &&& fresh.fast_open_cookie is None && fresh.fast_open_syn_payload_len == 0
            &&& fresh.timers.active == 0 && fresh.timers.pending == 0
            &&& fresh.sack.duplicate is None && fresh.sack.ranges.first is None
            &&& fresh.congestion == C::initial(1440)
            &&& fresh.retransmit_timeout.rto.nanos == 50_000_000
            &&& fresh.retransmit_timeout.srtt is None
            &&& !fresh.options.negotiated.sack && !fresh.options.negotiated.timestamps
            &&& !fresh.ecn.ece_ack && !fresh.ecn.cwr
        }),
{
}

/// After a range went out again the recovery timers and, where the window is closed,
/// the persist timer are told to run; after a SYN its own.
pub proof fn timers_of_a_resent_range_are_told<C: CongestionController>(
    connection: TcpConnection<C>,
    after: TcpConnection<C>,
    mask: u16,
    payload_len: usize,
    now: Instant,
)
    requires
        connection.committed(after, Ok(mask), payload_len, now),
        connection.tx_intent is Some,
    ensures
        connection.state == TcpState::SynSent ==> timers::holds(mask, TCP_TIMER_RETRANSMIT)
            && !timers::holds(mask, TCP_TIMER_PERSIST) && !timers::holds(mask, TCP_TIMER_TLP),
        connection.state == TcpState::Established ==> timers::holds(mask, TCP_TIMER_PERSIST) == (
        connection.snd_wnd == 0 && connection.recovery@.bytes_in_flight != 0),
{
    let rack = connection.rack_waits();
    let probe = connection.probe_waits();
    let recovery = connection.recovery_timer_mask();
    let due = connection.window_probe_due();
    ack_laws::mask_holds_what_it_is_made_of(rack, probe, TCP_TIMER_PERSIST);
    assert(!timers::holds(recovery, TCP_TIMER_PERSIST));
    assert(recovery & (1u16 << 5u32) == 0 ==> (recovery | (1u16 << 5u32)) & (1u16 << 5u32) != 0 && (
    recovery | 0u16) & (1u16 << 5u32) == 0) by (bit_vector);
    assert((1u16 << 0u32) & (1u16 << 0u32) != 0 && (1u16 << 0u32) & (1u16 << 5u32) == 0 && (1u16
        << 0u32) & (1u16 << 2u32) == 0) by (bit_vector);
}

/// A plain SYN is answered with a SYN-ACK that acknowledges it and what was accepted of
/// its data; any other segment is passed over.
pub proof fn plain_syn_is_answered<C: CongestionController>(
    connection: TcpConnection<C>,
    after: TcpConnection<C>,
    result: Result<Option<TcpSegment>, TcpConnectionError>,
    packet: TcpPacket,
    accepted_len: u32,
    now: Instant,
)
    requires
        connection.syn_received(after, result, packet, accepted_len, now),
    ensures
        !packet.flags.syn || packet.flags.ack || packet.flags.rst ==> after == connection && result
            == Ok::<Option<TcpSegment>, TcpConnectionError>(None),
        packet.flags.syn && !packet.flags.ack && !packet.flags.rst ==> {
            let iss = if connection.iss.value == 0 {
                1
            } else {
                connection.iss.value
            };
            let next = packet.sequence.spec_advance(1).spec_advance(accepted_len);
            &&& after.state == TcpState::SynRcvd
            &&& after.iss.value == iss && after.snd_una.value == iss
            &&& after.snd_nxt == after.iss.spec_advance(1)
            &&& after.irs == packet.sequence && after.rcv_nxt == next
            &&& after.snd_wnd == ack_laws::window_of(
                packet.advertised_window,
                after.options.negotiated.send_window_scale,
            )
            &&& after.recovery == connection.recovery && after.timers == connection.timers
            &&& result matches Ok(Some(segment)) && {
                &&& segment.flags.syn && segment.flags.ack && !segment.flags.rst
                    && !segment.flags.fin
                &&& segment.sequence == iss
                &&& next.value != 0 ==> segment.acknowledgment == next.value
                &&& segment.local == packet.local && segment.remote == packet.remote
            }
        },
{
}

/// The steps of a handshake are taken in their states only; elsewhere they are errors
/// and change nothing.
pub proof fn handshake_steps_need_their_state<C: CongestionController>(
    connection: TcpConnection<C>,
    after: TcpConnection<C>,
    result: Result<Option<TcpSegment>, TcpConnectionError>,
    packet: TcpPacket,
    now: Instant,
)
    ensures
        connection.open_reply_received(after, result, packet, now) ==> {
            &&& result is Ok <==> connection.state == TcpState::SynSent
            &&& result is Err ==> after == connection
            &&& after.state != connection.state ==> connection.state == TcpState::SynSent && (
            after.state == TcpState::Established || after.state == TcpState::SynRcvd || after.state
                == TcpState::Closed)
        },
        connection.final_ack_received(after, result, packet, now) ==> {
            &&& result is Ok <==> connection.state == TcpState::SynRcvd
            &&& result is Err ==> after == connection
            &&& after.state != connection.state ==> connection.state == TcpState::SynRcvd && (
            after.state == TcpState::Established || after.state == TcpState::Closed)
        },
{
}

} // verus!
