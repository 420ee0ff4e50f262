//! What the sessions, the listeners and the send queue get from a connection.
use std::collections::hash_map::RandomState;
use vstd::prelude::*;

use crate::bytes;
use crate::congestion::CongestionController;
use crate::tcp::ack_laws;
use crate::tcp::connection_model;
use crate::tcp::connection_model::TcpConnection;
use crate::tcp::cookies;
use crate::tcp::listen;
use crate::tcp::listen::TcpListenAction;
use crate::tcp::listener_pending::TcpLookupId;
use crate::tcp::listeners::TcpLookupValue;
use crate::tcp::lookup;
use crate::tcp::lookup::{TcpLookupState, TcpRoute};
use crate::tcp::output;
use crate::tcp::routes::SessionId;
use crate::tcp::sack;
use crate::tcp::sequence;
use crate::tcp::sequence::TcpSeq;
use crate::tcp::session_queue;
use crate::tcp::session_queue::{TcpQueueOutcome, TcpSendParams, TcpTimerPlan};
use crate::tcp::timers;
use crate::tcp::timers::{TCP_TIMER_DELAYED_ACK, TCP_TIMER_RETRANSMIT, TCP_TIMER_TIME_WAIT};
use crate::tcp::tuple;
use crate::tcp::types::{
    DataWorkerId, IpAddress, SocketAddress, TcpCapabilities, TcpPacket, TcpSegment, TcpState,
};
use crate::tcp::wire_laws;
use crate::tcp::TcpInputNext;
use crate::time::Instant;

verus! {

/// The send queue starts with the oldest byte that is not acknowledged. What was sent
/// of it is passed over, or where a range goes out again, what lies before that
/// range; only what lies behind can be sent.
pub proof fn send_queue_starts_at_the_left_edge<C: CongestionController>(
    connection: TcpConnection<C>,
    pending_len: usize,
    params: TcpSendParams,
)
    requires
        session_queue::params_told(connection, pending_len, params),
    ensures
        connection.state != TcpState::SynSent && connection.tx_intent is None ==> params.tx_offset
            == connection.snd_una.spec_distance_to(connection.snd_nxt),
        connection.state != TcpState::SynSent ==> (connection.tx_intent matches Some(intent)
            ==> params.tx_offset == connection.snd_una.spec_distance_to(intent.sequence)),
        connection.state == TcpState::SynSent && connection.tx_intent is None ==> params.tx_offset
            == 0,
        params.tx_offset >= pending_len ==> params.snd_space == connection.payload_budget(0),
        params.tx_offset <= pending_len ==> params.snd_space == connection.payload_budget(
            (pending_len - params.tx_offset) as usize,
        ),
        params.send_goal_size == (match connection.options.negotiated.send_max_segment_size {
            Some(limit) if limit != 0 && limit < 1440 => limit as int,
            _ => 1440,
        }),
        !params.flags.deschedule && !params.flags.postpone,
{
    assert(connection.iss.spec_distance_to(connection.iss) == 0);
}

/// Nothing is granted beyond what is pending behind what was sent.
pub proof fn grant_stays_within_the_queue<C: CongestionController>(
    connection: TcpConnection<C>,
    pending_len: usize,
    params: TcpSendParams,
)
    requires
        session_queue::params_told(connection, pending_len, params),
    ensures
        params.snd_space > 0 ==> params.tx_offset + params.snd_space <= pending_len,
{
}

/// What a timer or a turn leads to: a segment without payload is sent, one with
/// payload waits for the session's turn, and the session hears of the end.
pub proof fn timer_outcome_is_told<C: CongestionController>(
    connection: TcpConnection<C>,
    after: TcpConnection<C>,
    outcome: TcpQueueOutcome,
    timer_id: u32,
    now: Instant,
)
    requires
        session_queue::timer_served(connection, after, outcome, timer_id, now),
    ensures
        outcome.closed == (after.state == TcpState::Closed),
        outcome.reply matches Some(segment) ==> {
            &&& outcome.emit == (segment.payload_len == 0)
            &&& outcome.ready == (segment.payload_len != 0)
        },
        outcome.reply is None ==> !outcome.emit && outcome.ready == (timer_id <= 3 || timer_id
            == 5),
{
}

/// The session gets another turn for a segment with payload, or for a report that no
/// segment carried yet.
pub proof fn turn_outcome_is_told<C: CongestionController>(
    connection: TcpConnection<C>,
    after: TcpConnection<C>,
    outcome: TcpQueueOutcome,
    has_pending_tx: bool,
    now: Instant,
)
    requires
        session_queue::turn_taken(connection, after, outcome, has_pending_tx, now),
    ensures
        outcome.closed == (after.state == TcpState::Closed),
        outcome.emit == (outcome.reply is Some && outcome.reply->0.payload_len == 0),
        outcome.ready == ((outcome.reply is Some && outcome.reply->0.payload_len != 0) || (
        !outcome.emit && !has_pending_tx && (after.sack.duplicate is Some
            || after.sack.ranges.first is Some))),
        (connection.state == TcpState::FinWait1 || connection.state == TcpState::LastAck)
            && connection.local is Some ==> outcome.reply is Some && outcome.reply->0.flags.fin
            && outcome.emit,
        connection.state == TcpState::Established ==> outcome.reply is None && after
            == connection,
{
}

/// How many bytes the first `count` payloads hold.
pub open spec fn bytes_of(payload_lens: Seq<usize>, count: int) -> int
    decreases count,
{
    if count <= 0 {
        0
    } else {
        bytes_of(payload_lens, count - 1) + payload_lens[count - 1]
    }
}

proof fn lemma_bytes_of(payload_lens: Seq<usize>, fewer: int, count: int)
    requires
        0 <= fewer <= count,
    ensures
        0 <= bytes_of(payload_lens, fewer) <= bytes_of(payload_lens, count),
    decreases count,
{
    if fewer < count {
        lemma_bytes_of(payload_lens, fewer, count - 1);
    } else if fewer > 0 {
        lemma_bytes_of(payload_lens, fewer - 1, fewer - 1);
    }
}

proof fn lemma_advanced(start: TcpSeq, far: int, more: u32)
    requires
        0 <= far,
        far + more < sequence::SEQUENCE_SPACE,
    ensures
        start.spec_advance(far as u32).spec_advance(more) == start.spec_advance(
            (far + more) as u32,
        ),
{
}

proof fn lemma_batch<C: CongestionController>(
    states: Seq<TcpConnection<C>>,
    segments: Seq<TcpSegment>,
    payload_lens: Seq<usize>,
    now: Instant,
    count: int,
)
    requires
        session_queue::sent_along(states, segments, payload_lens, now),
        states[0].state == TcpState::Established,
        states[0].tx_intent is None,
        0 <= count <= segments.len(),
        bytes_of(payload_lens, segments.len() as int) < sequence::SEQUENCE_SPACE,
    ensures
        ({
            let after = states[count];
            &&& after.state == TcpState::Established
            &&& after.tx_intent is None
            &&& after.local == states[0].local
            &&& after.remote == states[0].remote
            &&& after.rcv_nxt == states[0].rcv_nxt
            &&& after.snd_una == states[0].snd_una
            &&& after.snd_nxt == states[0].snd_nxt.spec_advance(
                bytes_of(payload_lens, count) as u32,
            )
        }),
    decreases count,
{
    if count > 0 {
        lemma_batch(states, segments, payload_lens, now, count - 1);
        let before = states[count - 1];
        let after = states[count - 1 + 1];
        lemma_bytes_of(payload_lens, count, segments.len() as int);
        lemma_bytes_of(payload_lens, count - 1, count);
        assert(session_queue::one_sent(
            before,
            after,
            segments[count - 1],
            payload_lens[count - 1],
            now,
        ));
        let mask = choose|mask: u16| #[trigger]
            before.after_transmission(now).committed(
                after,
                Ok::<u16, connection_model::TcpConnectionError>(mask),
                payload_lens[count - 1],
                now,
            );
        assert(before.after_transmission(now).committed(
            after,
            Ok(mask),
            payload_lens[count - 1],
            now,
        ));
        lemma_advanced(
            states[0].snd_nxt,
            bytes_of(payload_lens, count - 1),
            payload_lens[count - 1] as u32,
        );
    } else {
        assert(states[0].snd_nxt.spec_advance(0) == states[0].snd_nxt);
    }
}

/// The segments of a batch follow each other without gap or overlap from the right
/// edge on; each acknowledges everything received, and the right edge ends up behind
/// the last.
pub proof fn batch_is_contiguous<C: CongestionController>(
    connection: TcpConnection<C>,
    after: TcpConnection<C>,
    segments: Seq<TcpSegment>,
    payload_lens: Seq<usize>,
    index: int,
    now: Instant,
)
    requires
        session_queue::batch_pushed(connection, after, segments, None, payload_lens, now),
        connection.state == TcpState::Established,
        connection.tx_intent is None,
        bytes_of(payload_lens, payload_lens.len() as int) < sequence::SEQUENCE_SPACE,
        0 <= index < segments.len(),
    ensures
        segments.len() == payload_lens.len(),
        segments[index].sequence == connection.snd_nxt.spec_advance(
            bytes_of(payload_lens, index) as u32,
        ).value,
        segments[index].payload_len == payload_lens[index],
        segments[index].flags.ack && !segments[index].flags.syn && !segments[index].flags.rst,
        segments[index].acknowledgment == connection.rcv_nxt.value,
        segments[index].remote == connection.remote,
        after.snd_nxt == connection.snd_nxt.spec_advance(
            bytes_of(payload_lens, payload_lens.len() as int) as u32,
        ),
        after.snd_una == connection.snd_una,
        after.rcv_nxt == connection.rcv_nxt,
{
    let states = choose|states: Seq<TcpConnection<C>>| #[trigger]
        session_queue::sent_along(states, segments, payload_lens, now) && states[0] == connection
            && segments.len() == payload_lens.len() && after == states.last();
    lemma_batch(states, segments, payload_lens, now, index);
    lemma_batch(states, segments, payload_lens, now, segments.len() as int);
    assert(session_queue::one_sent(
        states[index],
        states[index + 1],
        segments[index],
        payload_lens[index],
        now,
    ));
}

/// A timer is put on the wheel while it is active and means something; else it is
/// taken off.
pub proof fn active_timers_are_armed<C: CongestionController>(
    connection: TcpConnection<C>,
    timer_id: u32,
    now: Instant,
)
    ensures
        !timers::holds(connection.timers.active, timer_id) ==> session_queue::timer_plan(
            connection,
            timer_id,
            now,
        ) is Cancel,
        connection.ticks_until(timer_id, now) is None ==> session_queue::timer_plan(
            connection,
            timer_id,
            now,
        ) is Cancel,
        timers::holds(connection.timers.active, timer_id) && connection.ticks_until(timer_id, now)
            is Some ==> session_queue::timer_plan(connection, timer_id, now) == (
        TcpTimerPlan::Arm { ticks: connection.ticks_until(timer_id, now)->0 }),
        connection.state == TcpState::Established && timers::holds(
            connection.timers.active,
            TCP_TIMER_DELAYED_ACK,
        ) ==> session_queue::timer_plan(connection, TCP_TIMER_DELAYED_ACK, now) == (
        TcpTimerPlan::Arm { ticks: 1 }),
        connection.state == TcpState::TimeWait && timers::holds(
            connection.timers.active,
            TCP_TIMER_TIME_WAIT,
        ) ==> session_queue::timer_plan(connection, TCP_TIMER_TIME_WAIT, now) == (
        TcpTimerPlan::Arm { ticks: 120 }),
{
}

/// A connection that a session opens: between the two addresses, about to send its
/// SYN, whose timer runs, with nothing outstanding. Where the peer gave a cookie
/// before, it is at hand.
pub proof fn opened_connection_is_about_to_send<C: CongestionController>(
    before: TcpLookupState,
    after: TcpLookupState,
    connection: TcpConnection<C>,
    session_id: SessionId,
    owner: DataWorkerId,
    local: SocketAddress,
    remote: SocketAddress,
)
    requires
        session_queue::connected(before, after, connection, session_id, owner, local, remote),
    ensures
        connection.state == TcpState::SynSent,
        connection.local == Some(local) && connection.remote == remote,
        connection.local_port == local.port,
        connection.owner_worker == owner,
        connection.connection_id matches Some(id) && id.value == session_id.value,
        connection.iss.value != 0,
        connection.iss.value == lookup::stirred_iss(before.next_iss, local, remote),
        connection.snd_una == connection.iss,
        connection.snd_nxt == connection.iss.spec_advance(1),
        connection.snd_wnd == 65_535 && connection.rcv_wnd == 65_535,
        connection.close_reason is None && connection.fin_sequence is None,
        after.pending@.by_session(session_id.value) matches Some(entry) && {
            &&& entry.session_id == session_id && entry.owner == owner
            &&& entry.local == Some(local) && entry.remote == remote
            &&& entry.next == TcpInputNext::SynSent
            &&& entry.capabilities.fast_open == (connection.fast_open_cookie is Some)
            &&& connection.fast_open_cookie is Some ==> entry.capabilities.max_segment_size
                == before.fast_open_cache@[tuple::key_of(local, remote)].max_segment_size
            &&& connection.fast_open_cookie is None ==> entry.capabilities.max_segment_size is None
            &&& !entry.capabilities.sack && !entry.capabilities.timestamps
                && !entry.capabilities.ecn && entry.capabilities.window_scale is None
        },
        connection.tx_intent is None,
        connection.recovery@.samples.len() == 0 && connection.recovery@.bytes_in_flight == 0,
        timers::holds(connection.timers.active, TCP_TIMER_RETRANSMIT),
        (connection.fast_open_cookie is Some) == (tuple::tuple_of(local, remote) is Some
            && before.fast_open_cache@.contains_key(tuple::key_of(local, remote))),
        connection.fast_open_cookie matches Some(cookie) ==> cookie
            == before.fast_open_cache@[tuple::key_of(local, remote)].cookie,
        connection.options.local_capabilities.fast_open == (connection.fast_open_cookie is Some),
        after.connections == before.connections,
        after.listener_pending == before.listener_pending,
{
    timers::starting_touches_one_timer(
        timers::TcpTimerState::idle(),
        TCP_TIMER_RETRANSMIT,
        TCP_TIMER_RETRANSMIT,
    );
}

/// Two connections between the same addresses start at different numbers, as their
/// places in the series differ; so do two of the same place with different ports.
pub proof fn initial_numbers_differ(
    base: u32,
    other: u32,
    local: SocketAddress,
    remote: SocketAddress,
    port: u16,
)
    ensures
        lookup::stirred_iss(base, local, remote) != 0,
        base != other && lookup::stirred_iss(base, local, remote) > 1 && lookup::stirred_iss(
            other,
            local,
            remote,
        ) > 1 ==> lookup::stirred_iss(base, local, remote) != lookup::stirred_iss(
            other,
            local,
            remote,
        ),
        ({
            let elsewhere = SocketAddress { port, ..local };
            port != local.port && lookup::stirred_iss(base, local, remote) > 1
                && lookup::stirred_iss(base, elsewhere, remote) > 1 ==> lookup::stirred_iss(
                base,
                local,
                remote,
            ) != lookup::stirred_iss(base, elsewhere, remote)
        }),
        ({
            let elsewhere = SocketAddress { port, ..remote };
            port != remote.port && lookup::stirred_iss(base, local, remote) > 1
                && lookup::stirred_iss(base, local, elsewhere) > 1 ==> lookup::stirred_iss(
                base,
                local,
                remote,
            ) != lookup::stirred_iss(base, local, elsewhere)
        }),
{
    let stir = lookup::address_stir(local.ip, remote.ip);
    let ports = ((local.port * 0x1_0000) + remote.port) as u32;
    let moved_local = ((port * 0x1_0000) + remote.port) as u32;
    let moved_remote = ((local.port * 0x1_0000) + port) as u32;
    lemma_stir_is_one_to_one(base, other, ports, ports, stir);
    lemma_stir_is_one_to_one(base, base, ports, moved_local, stir);
    lemma_stir_is_one_to_one(base, base, ports, moved_remote, stir);
}

proof fn lemma_stir_is_one_to_one(a: u32, b: u32, p: u32, q: u32, stir: u32)
    ensures
        a != b && p == q ==> a ^ p ^ stir != b ^ q ^ stir,
        a == b && p != q ==> a ^ p ^ stir != b ^ q ^ stir,
{
    assert((a != b && p == q ==> a ^ p ^ stir != b ^ q ^ stir) && (a == b && p != q ==> a ^ p ^ stir
        != b ^ q ^ stir)) by (bit_vector);
}

/// Both addresses of an IPv4 tuple count for its number.
pub proof fn initial_number_depends_on_the_addresses(
    base: u32,
    local: SocketAddress,
    remote: SocketAddress,
    here: u32,
    there: u32,
    elsewhere: u32,
)
    requires
        local.ip == IpAddress::V4(here),
        remote.ip == IpAddress::V4(there),
        elsewhere != here,
        lookup::stirred_iss(base, local, remote) > 1,
        lookup::stirred_iss(
            base,
            (SocketAddress { ip: IpAddress::V4(elsewhere), ..local }),
            remote,
        ) > 1,
    ensures
        lookup::stirred_iss(
            base,
            (SocketAddress { ip: IpAddress::V4(elsewhere), ..local }),
            remote,
        ) != lookup::stirred_iss(base, local, remote),
{
    let ports = ((local.port * 0x1_0000) + remote.port) as u32;
    let turned = lookup::turned(there, 13, 19);
    assert(here != elsewhere ==> base ^ ports ^ (here ^ turned) != base ^ ports ^ (elsewhere
        ^ turned)) by (bit_vector);
}

/// The series of initial numbers goes on by the same step.
pub proof fn initial_numbers_step<C: CongestionController>(
    before: TcpLookupState,
    after: TcpLookupState,
    connection: TcpConnection<C>,
    session_id: SessionId,
    owner: DataWorkerId,
    local: SocketAddress,
    remote: SocketAddress,
)
    requires
        session_queue::connected(before, after, connection, session_id, owner, local, remote),
    ensures
        after.next_iss == (before.next_iss + 64_099) % 0x1_0000_0000,
        after.next_iss != before.next_iss,
{
}

/// The tighter of the two windows, less what is in flight, is what may be sent.
pub proof fn tighter_window_counts(
    snd_una: u32,
    snd_nxt: u32,
    snd_wnd: u32,
    congestion_window: u32,
    requested: usize,
    control_len: u32,
)
    requires
        snd_una != 0,
        snd_nxt != 0,
    ensures
        ({
            let flight = (TcpSeq { value: snd_una }).spec_distance_to(TcpSeq { value: snd_nxt });
            let tighter = if snd_wnd < congestion_window {
                snd_wnd
            } else {
                congestion_window
            };
            let left = output::send_window_left(snd_una, snd_nxt, snd_wnd, congestion_window);
            &&& flight <= tighter ==> left == tighter - flight
            &&& flight > tighter ==> left == 0
            &&& output::payload_that_fits(left, requested, control_len) == (if left
                < control_len {
                0
            } else if left - control_len < requested {
                left - control_len
            } else {
                requested as int
            })
        }),
{
}

/// A SYN and a FIN take one position each, behind the payload.
pub proof fn flags_take_positions(flags: u8, payload_len: usize)
    requires
        payload_len <= u32::MAX,
    ensures
        output::sequence_space(flags, payload_len) == payload_len + (if flags / 2 % 2 == 1 {
            1int
        } else {
            0
        }) + (if flags % 2 == 1 {
            1int
        } else {
            0
        }),
{
    assert((flags & 0x02 != 0) == (flags / 2 % 2 == 1) && (flags & 0x01 != 0) == (flags % 2 == 1))
        by (bit_vector);
}

/// The peer's limit on segments is kept where it is smaller than 1440 bytes.
pub proof fn segments_keep_the_peers_limit(limit: u16)
    ensures
        output::output_payload_len(None) == 1440,
        output::output_payload_len(Some(limit)) == (if limit == 0 || limit > 1440 {
            1440
        } else {
            limit as int
        }),
{
}

/// What a listener remembers of a SYN that it answers, and the answer: a SYN-ACK that
/// acknowledges the SYN alone and echoes its timestamp.
pub proof fn challenge_remembers_the_syn(
    before: TcpLookupState,
    after: TcpLookupState,
    listener_id: TcpLookupId,
    capabilities: TcpCapabilities,
    packet: TcpPacket,
    now_secs: u64,
    reply: TcpSegment,
)
    requires
        listen::challenged(
            before,
            after,
            listener_id,
            capabilities,
            packet,
            now_secs,
            Some(reply),
        ),
    ensures
        ({
            let key = tuple::key_of(packet.local, packet.remote);
            let kept = after.listener_pending@[key];
            &&& after.listener_pending@.contains_key(key)
            &&& kept.listener_id == listener_id
            &&& kept.local.ip == packet.local.ip && kept.local.port == packet.local.port
            &&& kept.remote.ip == packet.remote.ip && kept.remote.port == packet.remote.port
            &&& kept.client_sequence == packet.sequence.value
            &&& kept.advertised_window == packet.advertised_window
            &&& kept.capabilities == packet.capabilities
            &&& kept.timestamp == packet.timestamp
            &&& kept.created_epoch == (now_secs as int / 15) % 0x1_0000_0000
        }),
        reply.flags.syn && reply.flags.ack && !reply.flags.rst && !reply.flags.fin,
        reply.flags.ece == capabilities.ecn && !reply.flags.cwr && !reply.flags.psh,
        reply.acknowledgment == packet.sequence.spec_advance(1).value,
        reply.sequence != 0,
        reply.local == packet.local && reply.remote == packet.remote,
        reply.capabilities == capabilities,
        reply.payload_len == 0,
        (reply.timestamp is Some) == (packet.timestamp is Some),
        reply.timestamp matches Some(timestamp) ==> timestamp.tsecr == packet.timestamp->0.tsval
            && timestamp.tsval == (if packet.timestamp->0.tsecr == 0 {
            1
        } else {
            packet.timestamp->0.tsecr
        }),
        after.connections == before.connections && after.pending == before.pending,
{
}

/// A SYN that finds no room is not answered and not remembered.
pub proof fn refused_syn_is_not_remembered(
    before: TcpLookupState,
    after: TcpLookupState,
    listener_id: TcpLookupId,
    capabilities: TcpCapabilities,
    packet: TcpPacket,
    now_secs: u64,
)
    requires
        listen::challenged(
            before,
            after,
            listener_id,
            capabilities,
            packet,
            now_secs,
            None,
        ),
        !before.listener_pending@.contains_key(tuple::key_of(packet.local, packet.remote)),
    ensures
        !after.listener_pending@.contains_key(tuple::key_of(packet.local, packet.remote)),
        after.listener_cookie_secrets == before.listener_cookie_secrets,
        after.connections == before.connections && after.pending == before.pending,
{
}

/// The cookie that an acknowledgment vouches for is the number before it.
pub proof fn acknowledgment_vouches_for_the_number_before(cookie: u32)
    ensures
        listen::vouched_cookie((TcpSeq { value: cookie }).spec_advance(1)) == cookie,
{
}

/// The handshake that a segment completes is the one that waits between its addresses
/// for this listener, as it was remembered.
pub proof fn completed_handshake_is_the_one_that_waits(
    before: TcpLookupState,
    after: TcpLookupState,
    listener_id: TcpLookupId,
    packet: TcpPacket,
    now_secs: u64,
    found: listen::TcpListenerOpen,
)
    requires
        listen::open_awaited(before, after, listener_id, packet, now_secs, Some(found)),
    ensures
        ({
            let key = tuple::key_of(packet.local, packet.remote);
            &&& packet.acknowledgment is Some
            &&& before.listener_pending@.contains_key(key)
            &&& found.pending == before.listener_pending@[key]
            &&& found.pending.listener_id == listener_id
            &&& (TcpSeq { value: found.cookie }).spec_advance(1) == packet.acknowledgment->0
        }),
{
}

/// A listener looks only at a SYN alone and at an acknowledgment; it answers the one
/// and opens for the other.
pub proof fn listener_answers_and_opens(
    before: TcpLookupState,
    after: TcpLookupState,
    listener_id: TcpLookupId,
    capabilities: TcpCapabilities,
    packet: TcpPacket,
    now_secs: u64,
    action: TcpListenAction,
)
    requires
        listen::listener_handled(
            before,
            after,
            listener_id,
            capabilities,
            packet,
            now_secs,
            action,
        ),
    ensures
        action is Complete ==> packet.flags.ack && !packet.flags.rst,
        action is FastOpen || action is Reply ==> packet.flags.syn && !packet.flags.ack
            && !packet.flags.rst && !packet.flags.fin,
        action is FastOpen ==> packet.payload_len != 0 && capabilities.fast_open
            && packet.fast_open_cookie is Some,
        packet.flags.rst ==> action is Ignore && after == before,
        !packet.flags.syn && !packet.flags.ack ==> action is Ignore && after == before,
{
}

/// A connection that opens with the data of its SYN: the SYN-ACK acknowledges the SYN
/// and all of that data, and the connection expects the byte behind it.
#[verifier::spinoff_prover]
pub proof fn fast_open_takes_the_data<C: CongestionController>(
    connection: TcpConnection<C>,
    reply: TcpSegment,
    session_id: SessionId,
    worker: DataWorkerId,
    capabilities: TcpCapabilities,
    packet: TcpPacket,
    now: Instant,
)
    requires
        listen::fast_opened(
            connection,
            reply,
            session_id,
            worker,
            capabilities,
            packet,
            now,
        ),
    ensures
        ({
            let next = packet.sequence.spec_advance(1).spec_advance(packet.payload_len);
            &&& connection.state == TcpState::SynRcvd
            &&& connection.irs == packet.sequence
            &&& connection.rcv_nxt == next
            &&& connection.snd_una.spec_distance_to(connection.snd_nxt) == 1
            &&& connection.local == Some(packet.local) && connection.remote == packet.remote
            &&& connection.owner_worker == worker
            &&& connection.local_port == packet.local.port
            &&& connection.connection_id matches Some(id) && id.value == session_id.value
            &&& connection.snd_wnd == ack_laws::window_of(
                packet.advertised_window,
                connection.options.negotiated.send_window_scale,
            )
            &&& reply.flags.syn && reply.flags.ack && !reply.flags.rst && !reply.flags.fin
            &&& reply.sequence == connection.iss.value
            &&& next.value != 0 ==> reply.acknowledgment == next.value
            &&& reply.local == packet.local && reply.remote == packet.remote
        }),
{
    sequence::advance_then_distance(connection.iss, 1);
}

/// A connection that opens with the acknowledgment of its cookie: it expects the byte
/// behind the SYN that was remembered, and has sent its own SYN and no more.
#[verifier::spinoff_prover]
pub proof fn completed_open_follows_the_syn<C: CongestionController>(
    connection: TcpConnection<C>,
    reply: Option<TcpSegment>,
    session_id: SessionId,
    worker: DataWorkerId,
    capabilities: TcpCapabilities,
    packet: TcpPacket,
    open: listen::TcpListenerOpen,
    now: Instant,
)
    requires
        listen::open_completed(
            connection,
            reply,
            session_id,
            worker,
            capabilities,
            packet,
            open,
            now,
        ),
        open.cookie != 0,
        ack_laws::acknowledges(packet, (TcpSeq { value: open.cookie }).spec_advance(1)),
        !packet.flags.rst,
        !capabilities.timestamps,
    ensures
        connection.state == TcpState::Established,
        reply is None,
        connection.iss.value == open.cookie,
        connection.irs.value == open.pending.client_sequence,
        connection.rcv_nxt == (TcpSeq { value: open.pending.client_sequence }).spec_advance(1),
        connection.snd_una == connection.snd_nxt,
        connection.snd_nxt == (TcpSeq { value: open.cookie }).spec_advance(1),
        connection.local == Some(packet.local) && connection.remote == packet.remote,
        connection.owner_worker == worker,
        connection.connection_id matches Some(id) && id.value == session_id.value,
        connection.local_port == packet.local.port,
        connection.snd_wnd == ack_laws::window_of(
            packet.advertised_window,
            connection.options.negotiated.send_window_scale,
        ),
{
    sequence::advance_then_distance(TcpSeq { value: open.cookie }, 1);
    sequence::order_within_half_space(
        TcpSeq { value: open.cookie },
        TcpSeq { value: open.cookie },
        (TcpSeq { value: open.cookie }).spec_advance(1),
    );
}

/// The payload of the segment that opened a connection goes to its session, unless it
/// was the SYN's and is taken already.
pub proof fn opening_payload_is_forwarded(
    listener: TcpLookupValue,
    session_id: Option<SessionId>,
    packet: TcpPacket,
)
    ensures
        ({
            let route = listen::forward_route(listener, session_id, packet);
            &&& route is Some ==> session_id is Some && packet.payload_len > 0
            &&& session_id is Some && packet.payload_len > 0 && packet.flags.ack ==> route == Some(
                TcpRoute {
                    session_id: session_id->0,
                    owner: listener.owner_worker,
                    next: TcpInputNext::Established,
                },
            )
            &&& packet.flags == listen::syn_only() ==> route is None
        }),
{
}

proof fn lemma_word_is_one_to_one(a: u32, b: u32)
    requires
        bytes::be32(a) == bytes::be32(b),
    ensures
        a == b,
{
    bytes::be32_round_trip(a);
    bytes::be32_round_trip(b);
}

/// A SYN cookie vouches for its listener, its epoch and the client's number: cookies
/// for others are made from other bytes.
pub proof fn syn_cookie_vouches_for_the_handshake(
    listener_id: TcpLookupId,
    other_id: TcpLookupId,
    local: SocketAddress,
    remote: SocketAddress,
    client_sequence: u32,
    other_sequence: u32,
    epoch: u32,
    other_epoch: u32,
)
    requires
        cookies::listener_content(listener_id, local, remote, client_sequence, epoch)
            == cookies::listener_content(other_id, local, remote, other_sequence, other_epoch),
    ensures
        listener_id == other_id,
        client_sequence == other_sequence,
        epoch == other_epoch,
{
    let one = cookies::listener_content(listener_id, local, remote, client_sequence, epoch);
    let two = cookies::listener_content(other_id, local, remote, other_sequence, other_epoch);
    assert(one.subrange(0, 4) =~= bytes::be32(listener_id));
    assert(two.subrange(0, 4) =~= bytes::be32(other_id));
    assert(one.subrange(4, 8) =~= bytes::be32(epoch));
    assert(two.subrange(4, 8) =~= bytes::be32(other_epoch));
    assert(one.subrange(8, 12) =~= bytes::be32(client_sequence));
    assert(two.subrange(8, 12) =~= bytes::be32(other_sequence));
    lemma_word_is_one_to_one(listener_id, other_id);
    lemma_word_is_one_to_one(epoch, other_epoch);
    lemma_word_is_one_to_one(client_sequence, other_sequence);
}

/// Between IPv4 addresses it vouches for both of them and their ports.
pub proof fn syn_cookie_vouches_for_the_addresses(
    listener_id: TcpLookupId,
    local: SocketAddress,
    remote: SocketAddress,
    other_local: SocketAddress,
    other_remote: SocketAddress,
    client_sequence: u32,
    epoch: u32,
)
    requires
        local.ip is V4,
        remote.ip is V4,
        other_local.ip is V4,
        other_remote.ip is V4,
        cookies::listener_content(listener_id, local, remote, client_sequence, epoch)
            == cookies::listener_content(
            listener_id,
            other_local,
            other_remote,
            client_sequence,
            epoch,
        ),
    ensures
        local.ip == other_local.ip && local.port == other_local.port,
        remote.ip == other_remote.ip && remote.port == other_remote.port,
{
    let one = cookies::listener_content(listener_id, local, remote, client_sequence, epoch);
    let two = cookies::listener_content(
        listener_id,
        other_local,
        other_remote,
        client_sequence,
        epoch,
    );
    assert(one.subrange(12, 19) =~= cookies::address_bytes(local));
    assert(two.subrange(12, 19) =~= cookies::address_bytes(other_local));
    assert(one.subrange(19, 26) =~= cookies::address_bytes(remote));
    assert(two.subrange(19, 26) =~= cookies::address_bytes(other_remote));
    lemma_address_is_one_to_one(local, other_local);
    lemma_address_is_one_to_one(remote, other_remote);
}

proof fn lemma_address_is_one_to_one(a: SocketAddress, b: SocketAddress)
    requires
        a.ip is V4,
        b.ip is V4,
        cookies::address_bytes(a) == cookies::address_bytes(b),
    ensures
        a.ip == b.ip,
        a.port == b.port,
{
    let one = cookies::address_bytes(a);
    let two = cookies::address_bytes(b);
    let a_ip = a.ip->V4_0;
    let b_ip = b.ip->V4_0;
    assert(one.subrange(1, 5) =~= bytes::be32(a_ip));
    assert(two.subrange(1, 5) =~= bytes::be32(b_ip));
    lemma_word_is_one_to_one(a_ip, b_ip);
    assert(one.subrange(5, 7) =~= bytes::be16(a.port));
    assert(two.subrange(5, 7) =~= bytes::be16(b.port));
    bytes::be16_round_trip(a.port);
    bytes::be16_round_trip(b.port);
}

/// A fast open cookie vouches for its listener and its epoch.
pub proof fn fast_open_cookie_vouches_for_the_listener(
    discriminator: u64,
    listener_id: TcpLookupId,
    other_id: TcpLookupId,
    local: SocketAddress,
    remote: SocketAddress,
    epoch: u32,
    other_epoch: u32,
)
    requires
        cookies::fast_open_content(discriminator, listener_id, local, remote, epoch)
            == cookies::fast_open_content(discriminator, other_id, local, remote, other_epoch),
    ensures
        listener_id == other_id,
        epoch == other_epoch,
{
    let one = cookies::fast_open_content(discriminator, listener_id, local, remote, epoch);
    let two = cookies::fast_open_content(discriminator, other_id, local, remote, other_epoch);
    wire_laws::numbers_are_written_high_byte_first(0, 0, discriminator, 0);
    assert(one.subrange(8, 12) =~= bytes::be32(listener_id));
    assert(two.subrange(8, 12) =~= bytes::be32(other_id));
    assert(one.subrange(12, 16) =~= bytes::be32(epoch));
    assert(two.subrange(12, 16) =~= bytes::be32(other_epoch));
    lemma_word_is_one_to_one(listener_id, other_id);
    lemma_word_is_one_to_one(epoch, other_epoch);
}

/// A fast open cookie has sixteen bytes, the first a one, and names its epoch.
pub proof fn fast_open_cookie_names_its_epoch(
    secret: RandomState,
    listener_id: TcpLookupId,
    local: SocketAddress,
    remote: SocketAddress,
    epoch: u32,
)
    ensures
        ({
            let cookie = cookies::fast_open_bytes(secret, listener_id, local, remote, epoch);
            &&& cookie.len() == 16
            &&& cookie[0] == 1
            &&& wire_laws::spelled(cookie.subrange(1, 5)) == epoch
            &&& cookies::named_epoch(cookie) == Some(epoch)
        }),
{
    let cookie = cookies::fast_open_bytes(secret, listener_id, local, remote, epoch);
    wire_laws::numbers_are_written_high_byte_first(0, epoch, 0, 0);
    assert(cookie.subrange(1, 5) =~= bytes::be32(epoch));
    wire_laws::numbers_are_read_high_byte_first(cookie, 1);
}

/// Keys last for their own epoch and the next; asking for one drops what is older,
/// of that listener only.
pub proof fn cookie_keys_last_two_epochs(
    before: Map<(TcpLookupId, u32), RandomState>,
    after: Map<(TcpLookupId, u32), RandomState>,
    listener_id: TcpLookupId,
    epoch: u32,
    other_id: TcpLookupId,
    other_epoch: u32,
)
    requires
        cookies::key_ready(before, after, listener_id, epoch, 1),
    ensures
        after.contains_key((listener_id, epoch)),
        before.contains_key((listener_id, epoch)) ==> after[(listener_id, epoch)]
            == before[(listener_id, epoch)],
        other_id != listener_id ==> after.contains_key((other_id, other_epoch))
            == before.contains_key((other_id, other_epoch)),
        other_epoch != epoch ==> after.contains_key((listener_id, other_epoch)) == (
        before.contains_key((listener_id, other_epoch)) && other_epoch + 1 == epoch),
        after.contains_key((other_id, other_epoch)) && (other_id, other_epoch) != (
            listener_id,
            epoch,
        ) ==> after[(other_id, other_epoch)] == before[(other_id, other_epoch)],
{
}

/// A SYN cookie is accepted only if it is the one for this handshake, made with the
/// key of this epoch or of the one before.
pub proof fn accepted_syn_cookie_was_issued(
    before: Map<(TcpLookupId, u32), RandomState>,
    after: Map<(TcpLookupId, u32), RandomState>,
    listener_id: TcpLookupId,
    local: SocketAddress,
    remote: SocketAddress,
    client_sequence: u32,
    cookie: u32,
    epoch: u32,
)
    requires
        cookies::listener_validation(
            before,
            after,
            listener_id,
            local,
            remote,
            client_sequence,
            cookie,
            epoch,
            true,
        ),
    ensures
        ({
            let issued = |named: u32|
                {
                    let word = cookies::keyed_hash(
                        after[(listener_id, named)],
                        cookies::listener_content(
                            listener_id,
                            local,
                            remote,
                            client_sequence,
                            named,
                        ),
                    ) as int % 0x1_0000_0000;
                    after.contains_key((listener_id, named)) && cookie == (if word == 0 {
                        1
                    } else {
                        word
                    })
                };
            issued(epoch) || (epoch > 0 && issued((epoch - 1) as u32))
        }),
{
}

/// A fast open cookie is accepted only if it is the one for these addresses, made
/// with the key of the epoch that it names, which is this one or the one before.
pub proof fn accepted_fast_open_cookie_was_issued(
    before: Map<(TcpLookupId, u32), RandomState>,
    after: Map<(TcpLookupId, u32), RandomState>,
    listener_id: TcpLookupId,
    local: SocketAddress,
    remote: SocketAddress,
    cookie: Seq<u8>,
    epoch: u32,
)
    requires
        cookies::fast_open_validation(
            before,
            after,
            listener_id,
            local,
            remote,
            cookie,
            epoch,
            true,
        ),
    ensures
        cookie.len() == 16,
        cookie[0] == 1,
        ({
            let named = wire_laws::spelled(cookie.subrange(1, 5)) as u32;
            &&& named <= epoch <= named + 1
            &&& after.contains_key((listener_id, named))
            &&& cookie == cookies::fast_open_bytes(
                after[(listener_id, named)],
                listener_id,
                local,
                remote,
                named,
            )
        }),
{
    wire_laws::numbers_are_read_high_byte_first(cookie, 1);
}

/// Between IPv4 addresses a fast open cookie vouches for both of them.
pub proof fn fast_open_cookie_vouches_for_the_addresses(
    discriminator: u64,
    listener_id: TcpLookupId,
    local: SocketAddress,
    remote: SocketAddress,
    other_local: SocketAddress,
    other_remote: SocketAddress,
    epoch: u32,
)
    requires
        local.ip is V4,
        remote.ip is V4,
        other_local.ip is V4,
        other_remote.ip is V4,
        cookies::fast_open_content(discriminator, listener_id, local, remote, epoch)
            == cookies::fast_open_content(
            discriminator,
            listener_id,
            other_local,
            other_remote,
            epoch,
        ),
    ensures
        local.ip == other_local.ip && local.port == other_local.port,
        remote.ip == other_remote.ip && remote.port == other_remote.port,
{
    let one = cookies::fast_open_content(discriminator, listener_id, local, remote, epoch);
    let two = cookies::fast_open_content(
        discriminator,
        listener_id,
        other_local,
        other_remote,
        epoch,
    );
    wire_laws::numbers_are_written_high_byte_first(0, 0, discriminator, 0);
    assert(one.subrange(16, 23) =~= cookies::address_bytes(local));
    assert(two.subrange(16, 23) =~= cookies::address_bytes(other_local));
    assert(one.subrange(23, 30) =~= cookies::address_bytes(remote));
    assert(two.subrange(23, 30) =~= cookies::address_bytes(other_remote));
    lemma_address_is_one_to_one(local, other_local);
    lemma_address_is_one_to_one(remote, other_remote);
}

/// The same place: family, address, port and, for IPv6, flow information and scope.
pub open spec fn same_place(a: SocketAddress, b: SocketAddress) -> bool {
    &&& a.ip == b.ip
    &&& a.port == b.port
    &&& a.ip is V6 ==> a.flow_info == b.flow_info && a.scope_id == b.scope_id
}

/// The bytes of an address, its kind first.
#[verifier::spinoff_prover]
proof fn lemma_address_leads(a: SocketAddress, b: SocketAddress, one: Seq<u8>, two: Seq<u8>)
    requires
        cookies::address_bytes(a) + one == cookies::address_bytes(b) + two,
    ensures
        same_place(a, b),
        cookies::address_bytes(a).len() == cookies::address_bytes(b).len(),
        one == two,
{
    let left = cookies::address_bytes(a) + one;
    let right = cookies::address_bytes(b) + two;
    assert(left[0] == right[0]);
    match (a.ip, b.ip) {
        (IpAddress::V4(x), IpAddress::V4(y)) => {
            assert(left.subrange(0, 7) =~= cookies::address_bytes(a));
            assert(right.subrange(0, 7) =~= cookies::address_bytes(b));
            assert(left.subrange(7, left.len() as int) =~= one);
            assert(right.subrange(7, right.len() as int) =~= two);
            lemma_address_is_one_to_one(a, b);
        },
        (IpAddress::V6(x), IpAddress::V6(y)) => {
            wire_laws::numbers_are_written_high_byte_first(0, 0, 0, x);
            wire_laws::numbers_are_written_high_byte_first(0, 0, 0, y);
            assert(left.subrange(1, 17) =~= bytes::be128(x));
            assert(right.subrange(1, 17) =~= bytes::be128(y));
            assert(left.subrange(17, 19) =~= bytes::be16(a.port));
            assert(right.subrange(17, 19) =~= bytes::be16(b.port));
            assert(left.subrange(19, 23) =~= bytes::be32(a.flow_info));
            assert(right.subrange(19, 23) =~= bytes::be32(b.flow_info));
            assert(left.subrange(23, 27) =~= bytes::be32(a.scope_id));
            assert(right.subrange(23, 27) =~= bytes::be32(b.scope_id));
            assert(left.subrange(27, left.len() as int) =~= one);
            assert(right.subrange(27, right.len() as int) =~= two);
            bytes::be16_round_trip(a.port);
            bytes::be16_round_trip(b.port);
            lemma_word_is_one_to_one(a.flow_info, b.flow_info);
            lemma_word_is_one_to_one(a.scope_id, b.scope_id);
        },
        _ => {},
    }
}

/// A SYN cookie vouches for both ends of its handshake, whatever their family.
pub proof fn syn_cookie_vouches_for_both_ends(
    listener_id: TcpLookupId,
    local: SocketAddress,
    remote: SocketAddress,
    other_local: SocketAddress,
    other_remote: SocketAddress,
    client_sequence: u32,
    epoch: u32,
)
    requires
        cookies::listener_content(listener_id, local, remote, client_sequence, epoch)
            == cookies::listener_content(
            listener_id,
            other_local,
            other_remote,
            client_sequence,
            epoch,
        ),
    ensures
        same_place(local, other_local),
        same_place(remote, other_remote),
{
    let one = cookies::listener_content(listener_id, local, remote, client_sequence, epoch);
    let two = cookies::listener_content(
        listener_id,
        other_local,
        other_remote,
        client_sequence,
        epoch,
    );
    lemma_both_ends(one, two, 12, local, remote, other_local, other_remote);
}

/// A fast open cookie vouches for both ends, whatever their family.
pub proof fn fast_open_cookie_vouches_for_both_ends(
    discriminator: u64,
    listener_id: TcpLookupId,
    local: SocketAddress,
    remote: SocketAddress,
    other_local: SocketAddress,
    other_remote: SocketAddress,
    epoch: u32,
)
    requires
        cookies::fast_open_content(discriminator, listener_id, local, remote, epoch)
            == cookies::fast_open_content(
            discriminator,
            listener_id,
            other_local,
            other_remote,
            epoch,
        ),
    ensures
        same_place(local, other_local),
        same_place(remote, other_remote),
{
    let one = cookies::fast_open_content(discriminator, listener_id, local, remote, epoch);
    let two = cookies::fast_open_content(
        discriminator,
        listener_id,
        other_local,
        other_remote,
        epoch,
    );
    wire_laws::numbers_are_written_high_byte_first(0, 0, discriminator, 0);
    lemma_both_ends(one, two, 16, local, remote, other_local, other_remote);
}

proof fn lemma_both_ends(
    one: Seq<u8>,
    two: Seq<u8>,
    head: int,
    local: SocketAddress,
    remote: SocketAddress,
    other_local: SocketAddress,
    other_remote: SocketAddress,
)
    requires
        one == two,
        0 <= head <= one.len(),
        one.subrange(head, one.len() as int) =~= cookies::address_bytes(local)
            + cookies::address_bytes(remote),
        two.subrange(head, two.len() as int) =~= cookies::address_bytes(other_local)
            + cookies::address_bytes(other_remote),
    ensures
        same_place(local, other_local),
        same_place(remote, other_remote),
{
    lemma_address_leads(
        local,
        other_local,
        cookies::address_bytes(remote),
        cookies::address_bytes(other_remote),
    );
    let none = Seq::<u8>::empty();
    assert(cookies::address_bytes(remote) + none =~= cookies::address_bytes(remote));
    assert(cookies::address_bytes(other_remote) + none =~= cookies::address_bytes(other_remote));
    lemma_address_leads(remote, other_remote, none, none);
}

/// The tag of a fast open cookie holds the first keyed word and the first three
/// bytes of the second.
pub proof fn fast_open_cookie_carries_its_tag(
    secret: RandomState,
    listener_id: TcpLookupId,
    local: SocketAddress,
    remote: SocketAddress,
    epoch: u32,
)
    ensures
        ({
            let cookie = cookies::fast_open_bytes(secret, listener_id, local, remote, epoch);
            let word = |discriminator: u64|
                cookies::keyed_hash(
                    secret,
                    cookies::fast_open_content(discriminator, listener_id, local, remote, epoch),
                );
            &&& wire_laws::spelled(cookie.subrange(5, 13)) == word(0)
            &&& cookie.subrange(13, 16) == bytes::be64(word(1)).subrange(0, 3)
        }),
{
    let cookie = cookies::fast_open_bytes(secret, listener_id, local, remote, epoch);
    let first = cookies::keyed_hash(
        secret,
        cookies::fast_open_content(0, listener_id, local, remote, epoch),
    );
    let second = cookies::keyed_hash(
        secret,
        cookies::fast_open_content(1, listener_id, local, remote, epoch),
    );
    wire_laws::numbers_are_written_high_byte_first(0, epoch, first, 0);
    wire_laws::numbers_are_written_high_byte_first(0, epoch, second, 0);
    assert(cookie.subrange(5, 13) =~= bytes::be64(first));
    assert(cookie.subrange(13, 16) =~= bytes::be64(second).subrange(0, 3));
}

/// The answer to a SYN stands at its cookie, made with the key of this hour, and
/// grants no fast open cookie but where the listener takes them.
pub proof fn challenge_stands_at_its_cookie(
    before: TcpLookupState,
    after: TcpLookupState,
    listener_id: TcpLookupId,
    capabilities: TcpCapabilities,
    packet: TcpPacket,
    now_secs: u64,
    reply: TcpSegment,
)
    requires
        listen::challenged(
            before,
            after,
            listener_id,
            capabilities,
            packet,
            now_secs,
            Some(reply),
        ),
    ensures
        ({
            let hour = ((now_secs as int / 3600) % 0x1_0000_0000) as u32;
            let word = cookies::keyed_hash(
                after.listener_cookie_secrets@[(listener_id, hour)],
                cookies::listener_content(
                    listener_id,
                    packet.local,
                    packet.remote,
                    packet.sequence.value,
                    hour,
                ),
            ) as int % 0x1_0000_0000;
            &&& after.listener_cookie_secrets@.contains_key((listener_id, hour))
            &&& word != 0 ==> reply.sequence == word
            &&& word == 0 ==> reply.sequence == 1
            &&& (reply.fast_open_cookie is Some) == capabilities.fast_open
            &&& reply.fast_open_cookie matches Some(cookie) ==> {
                &&& after.fast_open_secrets@.contains_key((listener_id, hour))
                &&& cookie@ == cookies::fast_open_bytes(
                    after.fast_open_secrets@[(listener_id, hour)],
                    listener_id,
                    packet.local,
                    packet.remote,
                    hour,
                )
            }
        }),
        reply.advertised_window == packet.advertised_window,
        reply.sack_blocks == sack::no_blocks(),
        reply.ip_ecn is None,
{
}

/// A handshake completes only if its SYN was remembered for this listener, no longer
/// than an epoch ago, and the acknowledgment is one past a cookie that was issued for it
/// within this hour or the last. What is remembered loses only what is too old.
pub proof fn completed_handshake_was_awaited(
    before: TcpLookupState,
    after: TcpLookupState,
    listener_id: TcpLookupId,
    packet: TcpPacket,
    now_secs: u64,
    open: listen::TcpListenerOpen,
)
    requires
        listen::open_awaited(before, after, listener_id, packet, now_secs, Some(open)),
    ensures
        packet.acknowledgment is Some,
        packet.acknowledgment->0 == (TcpSeq { value: open.cookie }).spec_advance(1),
        ({
            let key = tuple::key_of(packet.local, packet.remote);
            let epoch = (now_secs as int / 15) % 0x1_0000_0000;
            let hour = ((now_secs as int / 3600) % 0x1_0000_0000) as u32;
            &&& before.listener_pending@.contains_key(key)
            &&& open.pending == before.listener_pending@[key]
            &&& open.pending.listener_id == listener_id
            &&& open.pending.created_epoch <= epoch <= open.pending.created_epoch + 1
            &&& exists|named: u32|
                named <= hour <= named + 1 && #[trigger] after.listener_cookie_secrets@.contains_key(
                    (listener_id, named),
                ) && open.cookie == cookies::listener_word(
                    after.listener_cookie_secrets@[(listener_id, named)],
                    listener_id,
                    packet.local,
                    packet.remote,
                    open.pending.client_sequence,
                    named,
                )
        }),
        after.connections == before.connections && after.pending == before.pending,
{
    let ack = packet.acknowledgment->0.value;
    assert(ack.wrapping_sub(1) == (if ack == 0 {
        u32::MAX as int
    } else {
        ack - 1
    }));
}

/// Without an acknowledgment nothing is completed and nothing changes; nor is a
/// handshake that this listener does not remember.
pub proof fn unknown_handshake_is_not_completed(
    before: TcpLookupState,
    after: TcpLookupState,
    listener_id: TcpLookupId,
    packet: TcpPacket,
    now_secs: u64,
    found: Option<listen::TcpListenerOpen>,
)
    requires
        listen::open_awaited(before, after, listener_id, packet, now_secs, found),
    ensures
        packet.acknowledgment is None ==> found is None && after == before,
        ({
            let key = tuple::key_of(packet.local, packet.remote);
            !before.listener_pending@.contains_key(key) || before.listener_pending@[key].listener_id
                != listener_id
        }) ==> found is None && after.listener_cookie_secrets == before.listener_cookie_secrets,
        after.fast_open_secrets == before.fast_open_secrets,
{
}

/// Data in a SYN is taken only under a fast open cookie, from a listener that takes
/// them; without data, cookie or such a listener nothing changes.
pub proof fn fast_open_needs_data_and_a_cookie(
    before: TcpLookupState,
    after: TcpLookupState,
    listener_id: TcpLookupId,
    capabilities: TcpCapabilities,
    packet: TcpPacket,
    now_secs: u64,
    accepted: bool,
)
    requires
        listen::fast_open_checked(
            before,
            after,
            listener_id,
            capabilities,
            packet,
            now_secs,
            accepted,
        ),
    ensures
        accepted ==> {
            let hour = ((now_secs as int / 3600) % 0x1_0000_0000) as u32;
            &&& packet.payload_len > 0 && capabilities.fast_open
            &&& packet.fast_open_cookie is Some
            &&& exists|named: u32|
                named <= hour <= named + 1 && #[trigger] after.fast_open_secrets@.contains_key(
                    (listener_id, named),
                ) && packet.fast_open_cookie->0@ == cookies::fast_open_bytes(
                    after.fast_open_secrets@[(listener_id, named)],
                    listener_id,
                    packet.local,
                    packet.remote,
                    named,
                )
        },
        packet.payload_len == 0 || !capabilities.fast_open || packet.fast_open_cookie is None
            ==> !accepted && after == before,
        after.listener_pending == before.listener_pending,
        after.listener_cookie_secrets == before.listener_cookie_secrets,
        after.connections == before.connections && after.pending == before.pending,
{
    if accepted {
        let cookie = packet.fast_open_cookie->0@;
        let hour = ((now_secs as int / 3600) % 0x1_0000_0000) as u32;
        accepted_fast_open_cookie_was_issued(
            before.fast_open_secrets@,
            after.fast_open_secrets@,
            listener_id,
            packet.local,
            packet.remote,
            cookie,
            hour,
        );
    }
}

/// A connection that a listener opened is known, and its handshake waits no more; the
/// handshakes of others do.
pub proof fn opened_handshake_waits_no_more<C: CongestionController>(
    before: TcpLookupState,
    after: TcpLookupState,
    session_id: SessionId,
    connection: TcpConnection<C>,
    listener_id: TcpLookupId,
    packet: TcpPacket,
    other: tuple::TcpTuple,
)
    requires
        listen::made_known(before, after, session_id, connection, listener_id, packet),
    ensures
        ({
            let key = tuple::key_of(packet.local, packet.remote);
            &&& after.listener_pending@.contains_key(key) ==> after.listener_pending@[key].listener_id
                != listener_id
            &&& other != key ==> after.listener_pending@.contains_key(other)
                == before.listener_pending@.contains_key(other)
            &&& other != key && before.listener_pending@.contains_key(other)
                ==> after.listener_pending@[other] == before.listener_pending@[other]
        }),
        connection.state == TcpState::Established || connection.state == TcpState::SynRcvd ==> {
            &&& after.connections@.by_session(session_id.value) matches Some(entry)
                && entry.session_id == session_id && entry.local == connection.local
                && entry.remote == connection.remote && entry.owner == connection.owner_worker
            &&& after.pending@.by_session(session_id.value) is None
        },
        after.listeners == before.listeners,
        after.next_iss == before.next_iss,
        after.listener_cookie_secrets == before.listener_cookie_secrets,
{
}

/// The address of either end, in 32 bits, turned left by some places.
pub open spec fn turned_left(value: u32, places: nat) -> int {
    let lap = vstd::arithmetic::power2::pow2(places) as int;
    let rest = vstd::arithmetic::power2::pow2((32 - places) as nat) as int;
    (value * lap) % 0x1_0000_0000 + value as int / rest
}

/// What the remote address puts into an initial number: between IPv4 ends the whole
/// of it, turned left by thirteen places; the local one goes in as it is.
pub proof fn initial_number_takes_in_the_addresses(
    base: u32,
    local: SocketAddress,
    remote: SocketAddress,
    here: u32,
    there: u32,
)
    requires
        local.ip == IpAddress::V4(here),
        remote.ip == IpAddress::V4(there),
        lookup::stirred_iss(base, local, remote) > 1,
        local.port == 0 && remote.port == 0,
    ensures
        here == 0 && base == 0 ==> lookup::stirred_iss(base, local, remote) == turned_left(
            there,
            13,
        ),
        there == 0 && base == 0 ==> lookup::stirred_iss(base, local, remote) == here,
        here == 0 && there == 0 ==> lookup::stirred_iss(base, local, remote) == base,
{
    vstd::arithmetic::power2::lemma2_to64();
    assert(0u32 ^ 0u32 ^ (0u32 ^ ((there << 13u32) | (there >> 19u32))) == (there * 0x2000)
        % 0x1_0000_0000 + there / 0x8_0000) by (bit_vector);
    assert(0u32 ^ 0u32 ^ (here ^ ((0u32 << 13u32) | (0u32 >> 19u32))) == here) by (bit_vector);
    assert(base ^ 0u32 ^ (0u32 ^ ((0u32 << 13u32) | (0u32 >> 19u32))) == base) by (bit_vector);
}

/// Between IPv6 ends the remote address puts its lowest word in, turned left by seven
/// places, and the local one its first and its third lowest word.
pub proof fn initial_number_takes_in_long_addresses(
    local: SocketAddress,
    remote: SocketAddress,
    here: u128,
    there: u128,
)
    requires
        local.ip == IpAddress::V6(here),
        remote.ip == IpAddress::V6(there),
        lookup::stirred_iss(0, local, remote) > 1,
        local.port == 0 && remote.port == 0,
    ensures
        here == 0 ==> lookup::stirred_iss(0, local, remote) == turned_left(
            (there % 0x1_0000_0000) as u32,
            7,
        ),
        there == 0 && here < 0x1_0000_0000_0000_0000 ==> lookup::stirred_iss(0, local, remote)
            == here % 0x1_0000_0000,
        there == 0 && here % 0x1_0000_0000 == 0 ==> lookup::stirred_iss(0, local, remote) == here
            / 0x1_0000_0000_0000_0000 % 0x1_0000_0000,
{
    vstd::arithmetic::power2::lemma2_to64();
    let low = (there % 0x1_0000_0000) as u32;
    let first = (here % 0x1_0000_0000) as u32;
    let third = (here / 0x1_0000_0000_0000_0000 % 0x1_0000_0000) as u32;
    assert(0u32 ^ 0u32 ^ (0u32 ^ 0u32 ^ ((low << 7u32) | (low >> 25u32))) == (low * 0x80)
        % 0x1_0000_0000 + low / 0x200_0000) by (bit_vector);
    assert(0u32 ^ 0u32 ^ (first ^ 0u32 ^ ((0u32 << 7u32) | (0u32 >> 25u32))) == first)
        by (bit_vector);
    assert(0u32 ^ 0u32 ^ (0u32 ^ third ^ ((0u32 << 7u32) | (0u32 >> 25u32))) == third)
        by (bit_vector);
}

/// The ports go in side by side, the local one above.
pub proof fn initial_number_takes_in_the_ports(local: SocketAddress, remote: SocketAddress)
    requires
        local.ip == IpAddress::V4(0),
        remote.ip == IpAddress::V4(0),
        local.port > 0,
    ensures
        lookup::stirred_iss(0, local, remote) == local.port * 0x1_0000 + remote.port,
{
    let ports = ((local.port * 0x1_0000) + remote.port) as u32;
    assert(0u32 ^ ports ^ (0u32 ^ ((0u32 << 13u32) | (0u32 >> 19u32))) == ports) by (bit_vector);
}

} // verus!
