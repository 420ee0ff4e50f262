//! What a session queue asks of a connection: how much to send, what to do on
//! its turn, and what a timer that fired means.
use vstd::prelude::*;

use crate::congestion::CongestionController;
use crate::tcp::connection_model::{TcpConnection, TcpConnectionError};
use crate::tcp::lookup;
use crate::tcp::lookup::TcpLookupState;
use crate::tcp::recovery_model;
use crate::tcp::routes::{SessionId, TcpPendingRouteEntry, TCP_ROUTE_CAPACITY};
use crate::tcp::sequence::TcpSeq;
use crate::tcp::timers;
use crate::tcp::timers::{
    TCP_TIMER_COUNT, TCP_TIMER_PACING, TCP_TIMER_PERSIST, TCP_TIMER_RACK, TCP_TIMER_RETRANSMIT,
    TCP_TIMER_TLP,
};
use crate::tcp::tuple;
use crate::tcp::types;
use crate::tcp::types::{
    DataWorkerId, SocketAddress, TcpCapabilities, TcpConnectionId, TcpSegment, TcpState,
};
use crate::tcp::TcpInputNext;
use crate::time::Instant;
use crate::transport::TransportSendFlags;

verus! {

/// How much a connection may send, and from where in the session's send queue.
#[derive(Clone, Copy, Debug, PartialEq, Eq, Structural)]
pub struct TcpSendParams {
    pub snd_space: usize,
    pub tx_offset: usize,
    pub send_goal_size: usize,
    pub flags: TransportSendFlags,
}

/// The position of the first byte that the session still keeps.
pub open spec fn queue_start<C: CongestionController>(connection: TcpConnection<C>) -> TcpSeq {
    if connection.state == TcpState::SynSent {
        connection.iss
    } else {
        connection.snd_una
    }
}

/// How far into the session's send queue the next payload byte lies.
pub open spec fn queue_offset<C: CongestionController>(connection: TcpConnection<C>) -> u32 {
    queue_start(connection).spec_distance_to(connection.next_payload_sequence())
}

/// What is pending once what was sent before is taken off.
pub open spec fn unsent_len<C: CongestionController>(
    connection: TcpConnection<C>,
    pending_len: usize,
) -> usize {
    if pending_len < queue_offset(connection) {
        0
    } else {
        (pending_len - queue_offset(connection)) as usize
    }
}

/// `params` is what a connection tells of a send queue with `pending_len` bytes.
pub open spec fn params_told<C: CongestionController>(
    connection: TcpConnection<C>,
    pending_len: usize,
    params: TcpSendParams,
) -> bool {
    &&& params.snd_space == connection.payload_budget(unsent_len(connection, pending_len))
    &&& params.tx_offset == queue_offset(connection)
    &&& params.send_goal_size == connection.segment_room()
    &&& params.flags == (TransportSendFlags { deschedule: false, postpone: false })
}

/// How much of a send queue with `pending_len` bytes the connection may send.
pub fn tcp_send_params<C: CongestionController>(
    connection: &TcpConnection<C>,
    pending_len: usize,
) -> (r: TcpSendParams)
    requires
        connection.well_formed(),
    ensures
        params_told(*connection, pending_len, r),
{
    let start: u32 = if connection.state() == TcpState::SynSent {
        connection.iss()
    } else {
        connection.snd_una()
    };
    let tx_offset: usize = TcpSeq::new(start).distance_to(connection.tx_payload_sequence())
        as usize;
    let unsent: usize = if pending_len < tx_offset {
        0
    } else {
        pending_len - tx_offset
    };
    TcpSendParams {
        snd_space: connection.tx_payload_budget(unsent),
        tx_offset,
        send_goal_size: connection.send_goal_size(),
        flags: TransportSendFlags::default(),
    }
}

/// What follows from a turn of a connection or from a timer of it.
#[derive(Clone, Copy, Debug)]
pub struct TcpQueueOutcome {
    /// The segment that the connection made.
    pub reply: Option<TcpSegment>,
    /// The segment carries no payload and is to be sent now. One that carries
    /// payload is made anew when the session has its turn.
    pub emit: bool,
    /// The session wants another turn.
    pub ready: bool,
    /// The connection is closed.
    pub closed: bool,
}

/// The reply can be sent as it is.
pub open spec fn bare(reply: Option<TcpSegment>) -> bool {
    reply is Some && reply->0.payload_len == 0
}

/// The reply carries payload.
pub open spec fn laden(reply: Option<TcpSegment>) -> bool {
    reply is Some && reply->0.payload_len != 0
}

/// A timer after which the session gets a turn even without a reply.
pub open spec fn timer_wants_turn(timer_id: u32) -> bool {
    timer_id == TCP_TIMER_RETRANSMIT || timer_id == TCP_TIMER_RACK || timer_id == TCP_TIMER_TLP
        || timer_id == TCP_TIMER_PERSIST || timer_id == TCP_TIMER_PACING
}

/// `after` and `outcome` are what follows from a timer that fired.
pub open spec fn timer_served<C: CongestionController>(
    before: TcpConnection<C>,
    after: TcpConnection<C>,
    outcome: TcpQueueOutcome,
    timer_id: u32,
    now: Instant,
) -> bool {
    &&& before.timer_handled(after, outcome.reply, timer_id, now)
    &&& outcome.emit == bare(outcome.reply)
    &&& outcome.ready == (laden(outcome.reply) || outcome.reply is None && timer_wants_turn(
        timer_id,
    ))
    &&& outcome.closed == (after.state == TcpState::Closed)
}

/// Handles a timer that fired.
pub fn tcp_handle_expired_timer<C: CongestionController>(
    connection: &mut TcpConnection<C>,
    timer_id: u32,
    now: Instant,
) -> (r: TcpQueueOutcome)
    requires
        old(connection).well_formed(),
    ensures
        final(connection).well_formed(),
        timer_served(*old(connection), *final(connection), r, timer_id, now),
{
    let reply = connection.on_tcp_timer_expiry(timer_id, now);
    let closed: bool = connection.state() == TcpState::Closed;
    match reply {
        Some(segment) => {
            let emit: bool = segment.payload_len() == 0;
            TcpQueueOutcome { reply, emit, ready: !emit, closed }
        },
        None => {
            let ready: bool = timer_id == TCP_TIMER_RETRANSMIT || timer_id == TCP_TIMER_RACK
                || timer_id == TCP_TIMER_TLP || timer_id == TCP_TIMER_PERSIST || timer_id
                == TCP_TIMER_PACING;
            TcpQueueOutcome { reply, emit: false, ready, closed }
        },
    }
}

/// Selective acknowledgments wait to be reported.
pub open spec fn sack_waits<C: CongestionController>(connection: TcpConnection<C>) -> bool {
    connection.sack.duplicate is Some || connection.sack.ranges.first is Some
}

/// `after` and `outcome` are what follows from a connection's turn.
pub open spec fn turn_taken<C: CongestionController>(
    before: TcpConnection<C>,
    after: TcpConnection<C>,
    outcome: TcpQueueOutcome,
    has_pending_tx: bool,
    now: Instant,
) -> bool {
    &&& after == before.ready_step(has_pending_tx, now).0
    &&& outcome.reply == before.ready_step(has_pending_tx, now).1
    &&& outcome.emit == bare(outcome.reply)
    &&& outcome.ready == (laden(outcome.reply) || !outcome.emit && !has_pending_tx && sack_waits(
        after,
    ))
    &&& outcome.closed == (after.state == TcpState::Closed)
}

/// Sends what the connection has to say on its turn besides payload.
pub fn tcp_custom_tx<C: CongestionController>(
    connection: &mut TcpConnection<C>,
    has_pending_tx: bool,
    now: Instant,
) -> (r: TcpQueueOutcome)
    ensures
        turn_taken(*old(connection), *final(connection), r, has_pending_tx, now),
{
    let reply = connection.on_tcp_ready(has_pending_tx, now);
    let (emit, later): (bool, bool) = match reply {
        Some(segment) => (segment.payload_len() == 0, segment.payload_len() != 0),
        None => (false, false),
    };
    let ready: bool = later || (!emit && !has_pending_tx && connection.has_pending_sack_output());
    TcpQueueOutcome { reply, emit, ready, closed: connection.state() == TcpState::Closed }
}

/// The connection after the close that its session may have asked for.
pub open spec fn closed_if<C: CongestionController>(
    connection: TcpConnection<C>,
    close_requested: bool,
) -> TcpConnection<C> {
    if close_requested {
        connection.closing()
    } else {
        connection
    }
}

/// Gives a connection its turn.
pub fn tcp_handle_ready_session<C: CongestionController>(
    connection: &mut TcpConnection<C>,
    close_requested: bool,
    has_pending_tx: bool,
    now: Instant,
) -> (r: TcpQueueOutcome)
    ensures
        turn_taken(
            closed_if(*old(connection), close_requested),
            *final(connection),
            r,
            has_pending_tx,
            now,
        ),
{
    if close_requested {
        connection.on_session_close();
    }
    tcp_custom_tx(connection, has_pending_tx, now)
}

/// A payload of `payload_len` bytes went out as `segment` and left the
/// connection in `after`.
pub open spec fn one_sent<C: CongestionController>(
    before: TcpConnection<C>,
    after: TcpConnection<C>,
    segment: TcpSegment,
    payload_len: usize,
    now: Instant,
) -> bool {
    &&& before.transmission(payload_len, now) == Ok::<TcpSegment, TcpConnectionError>(segment)
    &&& exists|mask: u16| #[trigger]
        before.after_transmission(now).committed(
            after,
            Ok::<u16, TcpConnectionError>(mask),
            payload_len,
            now,
        )
}

/// The payload could not be sent, for the reason given, and left the connection
/// in `after`.
pub open spec fn one_refused<C: CongestionController>(
    before: TcpConnection<C>,
    after: TcpConnection<C>,
    error: TcpConnectionError,
    payload_len: usize,
    now: Instant,
) -> bool {
    let stamped = before.after_transmission(now);
    match before.transmission(payload_len, now) {
        Err(refusal) => error == refusal && after == stamped,
        Ok(_) => stamped.committed(after, Err(error), payload_len, now),
    }
}

/// Puts the header on one payload and records that it goes out.
pub fn tcp_push_header<C: CongestionController>(
    connection: &mut TcpConnection<C>,
    payload_len: usize,
    now: Instant,
) -> (r: Result<TcpSegment, TcpConnectionError>)
    requires
        old(connection).well_formed(),
    ensures
        final(connection).well_formed(),
        match r {
            Ok(segment) => one_sent(
                *old(connection),
                *final(connection),
                segment,
                payload_len,
                now,
            ),
            Err(error) => one_refused(
                *old(connection),
                *final(connection),
                error,
                payload_len,
                now,
            ),
        },
{
    match connection.tx_segment(payload_len, now) {
        Ok(segment) => match connection.commit_payload_tx(payload_len, now) {
            Ok(mask) => {
                assert(old(connection).after_transmission(now).committed(
                    *connection,
                    Ok::<u16, TcpConnectionError>(mask),
                    payload_len,
                    now,
                ));
                Ok(segment)
            },
            Err(error) => Err(error),
        },
        Err(error) => Err(error),
    }
}

/// The states that a connection goes through while it sends the first payloads
/// of a batch.
pub open spec fn sent_along<C: CongestionController>(
    states: Seq<TcpConnection<C>>,
    segments: Seq<TcpSegment>,
    payload_lens: Seq<usize>,
    now: Instant,
) -> bool {
    &&& states.len() == segments.len() + 1
    &&& segments.len() <= payload_lens.len()
    &&& forall|i: int|
        0 <= i < segments.len() ==> one_sent(
            states[i],
            states[i + 1],
            #[trigger] segments[i],
            payload_lens[i],
            now,
        )
}

/// The headers of a batch, and why it stopped early if it did.
#[derive(Clone, Debug)]
pub struct TcpPushedHeaders {
    pub segments: Vec<TcpSegment>,
    pub error: Option<TcpConnectionError>,
}

/// `before` sent the headers of `pushed` one after the other and ended in
/// `after`: at the end of the batch, or at the first payload that it could not
/// send.
pub open spec fn batch_pushed<C: CongestionController>(
    before: TcpConnection<C>,
    after: TcpConnection<C>,
    segments: Seq<TcpSegment>,
    error: Option<TcpConnectionError>,
    payload_lens: Seq<usize>,
    now: Instant,
) -> bool {
    exists|states: Seq<TcpConnection<C>>| #[trigger]
        sent_along(states, segments, payload_lens, now) && states[0] == before && match error {
            None => segments.len() == payload_lens.len() && after == states.last(),
            Some(error) => segments.len() < payload_lens.len() && one_refused(
                states.last(),
                after,
                error,
                payload_lens[segments.len() as int],
                now,
            ),
        }
}

/// Puts headers on the payloads of a batch, in order.
pub fn tcp_push_headers<C: CongestionController>(
    connection: &mut TcpConnection<C>,
    payload_lens: &[usize],
    now: Instant,
) -> (r: TcpPushedHeaders)
    requires
        old(connection).well_formed(),
    ensures
        final(connection).well_formed(),
        batch_pushed(
            *old(connection),
            *final(connection),
            r.segments@,
            r.error,
            payload_lens@,
            now,
        ),
{
    let mut segments: Vec<TcpSegment> = Vec::new();
    let mut i: usize = 0;
    let ghost mut states = seq![*connection];
    while i < payload_lens.len()
        invariant
            i <= payload_lens@.len(),
            connection.well_formed(),
            segments@.len() == i,
            sent_along(states, segments@, payload_lens@, now),
            states[0] == *old(connection),
            states.last() == *connection,
        decreases payload_lens@.len() - i,
    {
        let ghost before = *connection;
        match tcp_push_header(connection, payload_lens[i], now) {
            Ok(segment) => {
                let ghost sent = segments@;
                segments.push(segment);
                proof {
                    let longer = states.push(*connection);
                    assert forall|k: int| 0 <= k < segments@.len() implies one_sent(
                        longer[k],
                        longer[k + 1],
                        #[trigger] segments@[k],
                        payload_lens@[k],
                        now,
                    ) by {
                        if k < sent.len() {
                            assert(segments@[k] == sent[k]);
                            assert(longer[k] == states[k] && longer[k + 1] == states[k + 1]);
                        }
                    }
                    states = longer;
                }
                i = i + 1;
            },
            Err(error) => {
                assert(sent_along(states, segments@, payload_lens@, now));
                return TcpPushedHeaders { segments, error: Some(error) };
            },
        }
    }
    assert(sent_along(states, segments@, payload_lens@, now));
    TcpPushedHeaders { segments, error: None }
}

/// What is to happen to a timer of a connection in the timer wheel.
#[derive(Clone, Copy, Debug, PartialEq, Eq, Structural)]
pub enum TcpTimerPlan {
    Arm { ticks: u64 },
    Cancel,
}

/// A timer runs while it is active, and for as long as the connection says.
pub open spec fn timer_plan<C: CongestionController>(
    connection: TcpConnection<C>,
    timer_id: u32,
    now: Instant,
) -> TcpTimerPlan {
    match connection.ticks_until(timer_id, now) {
        Some(ticks) if timers::holds(connection.timers.active, timer_id) => TcpTimerPlan::Arm {
            ticks,
        },
        _ => TcpTimerPlan::Cancel,
    }
}

/// What is to happen to a timer of a connection in the timer wheel.
pub fn tcp_timer_plan<C: CongestionController>(
    connection: &TcpConnection<C>,
    timer_id: u32,
    now: Instant,
) -> (r: TcpTimerPlan)
    requires
        connection.well_formed(),
        timer_id < TCP_TIMER_COUNT,
    ensures
        r == timer_plan(*connection, timer_id, now),
{
    if !connection.timer_is_active(timer_id) {
        return TcpTimerPlan::Cancel;
    }
    match connection.timer_ticks(timer_id, now) {
        Some(ticks) => TcpTimerPlan::Arm { ticks },
        None => TcpTimerPlan::Cancel,
    }
}

/// What is to happen to every timer of a connection, by the timers' numbers.
pub fn tcp_timer_plans<C: CongestionController>(connection: &TcpConnection<C>, now: Instant) -> (r:
    Vec<TcpTimerPlan>)
    requires
        connection.well_formed(),
    ensures
        r@.len() == TCP_TIMER_COUNT,
        forall|timer_id: u32|
            timer_id < TCP_TIMER_COUNT ==> r@[timer_id as int] == #[trigger] timer_plan(
                *connection,
                timer_id,
                now,
            ),
{
    let mut plans: Vec<TcpTimerPlan> = Vec::new();
    let mut timer_id: u32 = 0;
    while timer_id < TCP_TIMER_COUNT
        invariant
            timer_id <= TCP_TIMER_COUNT,
            connection.well_formed(),
            plans@.len() == timer_id,
            forall|earlier: u32|
                earlier < timer_id ==> plans@[earlier as int] == #[trigger] timer_plan(
                    *connection,
                    earlier,
                    now,
                ),
        decreases TCP_TIMER_COUNT - timer_id,
    {
        plans.push(tcp_timer_plan(connection, timer_id, now));
        timer_id = timer_id + 1;
    }
    plans
}

/// What a grant from an earlier connection lets a new one offer.
pub open spec fn opening_capabilities(
    grant: Option<lookup::TcpFastOpenGrant>,
) -> TcpCapabilities {
    TcpCapabilities {
        max_segment_size: match grant {
            Some(grant) => grant.max_segment_size,
            None => None,
        },
        fast_open: grant is Some,
        ..types::no_capabilities()
    }
}

/// What a worker remembers of a peer.
pub open spec fn grant_for(
    state: TcpLookupState,
    local: SocketAddress,
    remote: SocketAddress,
) -> Option<lookup::TcpFastOpenGrant> {
    match tuple::tuple_of(local, remote) {
        Some(key) if state.fast_open_cache@.contains_key(key) => Some(state.fast_open_cache@[key]),
        _ => None,
    }
}

/// `after` and `connection` are what opening a connection for a session leads to.
pub open spec fn connected<C: CongestionController>(
    before: TcpLookupState,
    after: TcpLookupState,
    connection: TcpConnection<C>,
    session_id: SessionId,
    owner: DataWorkerId,
    local: SocketAddress,
    remote: SocketAddress,
) -> bool {
    let grant = grant_for(before, local, remote);
    let capabilities = opening_capabilities(grant);
    let fresh = TcpConnection::<C>::fresh(
        Some(TcpConnectionId { value: session_id.value }),
        owner,
        local.port,
        Some(local),
        remote,
        connection.recovery,
    );
    let offering = TcpConnection {
        fast_open_cookie: match grant {
            Some(grant) => Some(grant.cookie),
            None => None,
        },
        ..fresh.with_local_capabilities(capabilities)
    };
    &&& connection.recovery@ == recovery_model::initial_recovery()
    &&& connection == offering.connecting(
        lookup::stirred_iss(before.next_iss, local, remote),
    ).timer_started(TCP_TIMER_RETRANSMIT)
    &&& after == (TcpLookupState {
        next_iss: before.next_iss.wrapping_add(lookup::TCP_ISS_STEP),
        pending: after.pending,
        ..before
    })
    &&& after.pending@ == before.pending@.upserted(
        (TcpPendingRouteEntry {
            session_id,
            local: Some(local),
            remote,
            owner,
            next: TcpInputNext::SynSent,
            capabilities,
        }),
    )
}

/// Opens a connection for a session. Its SYN goes out on the session's next turn.
pub fn connect_tcp_session<C: CongestionController>(
    state: &mut TcpLookupState,
    session_id: SessionId,
    owner: DataWorkerId,
    local: SocketAddress,
    remote: SocketAddress,
) -> (r: TcpConnection<C>)
    requires
        old(state).well_formed(),
        old(state).pending@.sessions.contains_key(session_id.value)
            || old(state).pending@.sessions.dom().len() < TCP_ROUTE_CAPACITY,
    ensures
        final(state).well_formed(),
        r.well_formed(),
        connected(*old(state), *final(state), r, session_id, owner, local, remote),
{
    let initial_sequence: u32 = state.next_initial_sequence(local, remote);
    let grant = state.fast_open_cookie(local, remote);
    let mut connection = TcpConnection::<C>::new(
        Some(TcpConnectionId::new(session_id.get())),
        owner,
        local.port(),
        Some(local),
        remote,
    );
    let capabilities = match grant {
        Some(grant) => TcpCapabilities {
            max_segment_size: grant.max_segment_size,
            fast_open: true,
            ..TcpCapabilities::default()
        },
        None => TcpCapabilities::default(),
    };
    connection.set_local_capabilities(capabilities);
    if let Some(grant) = grant {
        connection.fast_open_cookie = Some(grant.cookie);
    }
    connection.connect_state(initial_sequence);
    state.remember_pending_open(
        TcpPendingRouteEntry {
            session_id,
            local: Some(local),
            remote,
            owner,
            next: TcpInputNext::SynSent,
            capabilities,
        },
    );
    connection.timer_set(TCP_TIMER_RETRANSMIT);
    connection
}

/// Forgets a session that is gone.
pub fn tcp_on_close(state: &mut TcpLookupState, session_id: SessionId)
    requires
        old(state).well_formed(),
    ensures
        final(state).well_formed(),
        *final(state) == (TcpLookupState {
            connections: final(state).connections,
            pending: final(state).pending,
            ..*old(state)
        }),
        final(state).connections@ == old(state).connections@.forgotten(session_id.value),
        final(state).pending@ == old(state).pending@.forgotten(session_id.value),
{
    state.forget_session(session_id);
    state.forget_pending_open(session_id);
}

/// A new connection is found by its tuple, at the stage that awaits the reply to
/// its SYN, unless the peer already knows of another one there.
pub proof fn opened_session_is_routed(
    before: TcpLookupState,
    after: TcpLookupState,
    entry: TcpPendingRouteEntry,
    local: SocketAddress,
)
    requires
        entry.local == Some(local),
        entry.next == TcpInputNext::SynSent,
        tuple::tuple_of(local, entry.remote) is Some,
        after.connections@ == before.connections@,
        after.pending@ == before.pending@.upserted(entry),
        before.connection_route_of(local, entry.remote) is None,
    ensures
        after.route_of(local, entry.remote) == Some(
            lookup::TcpRoute {
                session_id: entry.session_id,
                owner: entry.owner,
                next: TcpInputNext::SynSent,
            },
        ),
        after.offered(entry.session_id) == Some(entry.capabilities),
{
}

} // verus!
