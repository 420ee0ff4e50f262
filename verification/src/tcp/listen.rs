//! How listeners open connections.
//!
//! A listener answers a SYN with a SYN cookie and keeps no more of it than an
//! entry in a bounded table. Only the acknowledgment of the cookie opens a
//! connection, or a SYN that carries data under a fast open cookie that the peer
//! was given before.
use vstd::prelude::*;

use crate::congestion::CongestionController;
use crate::tcp::connection_laws;
use crate::tcp::connection_model;
use crate::tcp::connection_model::TcpConnection;
use crate::tcp::cookies;
use crate::tcp::cookies::{
    TCP_FAST_OPEN_COOKIE_LEN, TCP_FAST_OPEN_COOKIE_PREVIOUS_EPOCH_WINDOW,
    TCP_FAST_OPEN_COOKIE_ROTATION_SECS, TCP_LISTENER_COOKIE_PREVIOUS_EPOCH_WINDOW,
    TCP_LISTENER_COOKIE_ROTATION_SECS,
};
use crate::tcp::listener_pending;
use crate::tcp::listener_pending::{
    TcpListenerPendingEntry, TcpLookupId, TCP_LISTENER_PENDING_ROTATION_SECS,
};
use crate::tcp::listeners::TcpLookupValue;
use crate::tcp::lookup;
use crate::tcp::lookup::{TcpLookupState, TcpRoute};
use crate::tcp::recovery::TcpRecoveryState;
use crate::tcp::recovery_model;
use crate::tcp::routes::SessionId;
use crate::tcp::sequence::TcpSeq;
use crate::tcp::tuple;
use crate::tcp::types;
use crate::tcp::types::{
    DataWorkerId, TcpCapabilities, TcpConnectionId, TcpFastOpenCookie, TcpPacket, TcpSackList,
    TcpSegment, TcpSegmentFlags, TcpState, TcpTimestampOption,
};
use crate::tcp::TcpInputNext;
use crate::time::Instant;

verus! {

/// How many handshakes wait for one listener.
pub const TCP_LISTENER_BACKLOG: usize = 128;

/// Where the listener stage sends a buffer.
#[derive(Clone, Copy, Debug, PartialEq, Eq, Structural)]
pub enum TcpListenNext {
    Output,
    Established,
    Drop,
}

/// A handshake whose last segment came in.
#[derive(Clone, Copy, Debug, PartialEq, Eq)]
pub struct TcpListenerOpen {
    pub pending: TcpListenerPendingEntry,
    /// The sequence number that our SYN-ACK had.
    pub cookie: u32,
}

/// What a listener does about a segment.
#[derive(Clone, Copy, Debug)]
pub enum TcpListenAction {
    Ignore,
    /// Send the segment, and keep nothing but the entry in the table.
    Reply { segment: TcpSegment },
    /// Open a connection for the SYN and its data.
    FastOpen,
    /// Open a connection for a handshake that is complete.
    Complete { open: TcpListenerOpen },
}

/// Only SYN set.
pub open spec fn syn_only() -> TcpSegmentFlags {
    TcpSegmentFlags { syn: true, ..types::no_flags() }
}

/// The fast open cookie that a SYN with data presents to a listener that takes
/// them.
pub open spec fn presented_cookie(capabilities: TcpCapabilities, packet: TcpPacket) -> Option<
    TcpFastOpenCookie,
> {
    if packet.payload_len != 0 && capabilities.fast_open {
        packet.fast_open_cookie
    } else {
        None
    }
}

/// `after` and `accepted` are what comes of looking for a valid fast open cookie
/// in a SYN.
pub open spec fn fast_open_checked(
    before: TcpLookupState,
    after: TcpLookupState,
    listener_id: TcpLookupId,
    capabilities: TcpCapabilities,
    packet: TcpPacket,
    now_secs: u64,
    accepted: bool,
) -> bool {
    match presented_cookie(capabilities, packet) {
        None => !accepted && after == before,
        Some(cookie) => {
            &&& after == (TcpLookupState { fast_open_secrets: after.fast_open_secrets, ..before })
            &&& cookies::fast_open_validation(
                before.fast_open_secrets@,
                after.fast_open_secrets@,
                listener_id,
                packet.local,
                packet.remote,
                cookie@,
                lookup::epoch_at(now_secs, TCP_FAST_OPEN_COOKIE_ROTATION_SECS),
                accepted,
            )
        },
    }
}

/// Whether a SYN carries data under a fast open cookie that its sender was given.
pub fn tcp_fast_open_accepted(
    state: &mut TcpLookupState,
    listener_id: TcpLookupId,
    capabilities: TcpCapabilities,
    packet: &TcpPacket,
    now_secs: u64,
) -> (r: bool)
    requires
        old(state).well_formed(),
        packet.fast_open_cookie is Some ==> packet.fast_open_cookie->0.well_formed(),
    ensures
        final(state).well_formed(),
        fast_open_checked(
            *old(state),
            *final(state),
            listener_id,
            capabilities,
            *packet,
            now_secs,
            r,
        ),
{
    if packet.payload_len == 0 || !capabilities.fast_open {
        return false;
    }
    match packet.fast_open_cookie {
        None => false,
        Some(cookie) => {
            let presented = cookie.to_vec();
            state.validate_fast_open_cookie(
                listener_id,
                packet.local,
                packet.remote,
                presented.as_slice(),
                now_secs,
            )
        },
    }
}

/// The entry that a SYN makes in the table of handshakes.
pub open spec fn pending_entry(listener_id: TcpLookupId, packet: TcpPacket, now_secs: u64) ->
    TcpListenerPendingEntry {
    TcpListenerPendingEntry {
        listener_id,
        local: packet.local.spec_endpoint(),
        remote: packet.remote.spec_endpoint(),
        client_sequence: packet.sequence.value,
        advertised_window: packet.advertised_window,
        capabilities: packet.capabilities,
        timestamp: packet.timestamp,
        created_epoch: lookup::epoch_at(now_secs, TCP_LISTENER_PENDING_ROTATION_SECS),
    }
}

/// The timestamp that answers the one of a SYN. Our clock starts at what the
/// peer echoes, and never at zero.
pub open spec fn challenge_timestamp(packet: TcpPacket) -> Option<TcpTimestampOption> {
    match packet.timestamp {
        Some(timestamp) => Some(
            TcpTimestampOption {
                tsval: if timestamp.tsecr == 0 {
                    1
                } else {
                    timestamp.tsecr
                },
                tsecr: timestamp.tsval,
            },
        ),
        None => None,
    }
}

/// No SACK blocks.
pub open spec fn no_sack_blocks() -> TcpSackList {
    TcpSackList { first: None, second: None, third: None, fourth: None }
}

/// The SYN-ACK that answers a SYN, around its two cookies.
pub open spec fn challenge(
    capabilities: TcpCapabilities,
    packet: TcpPacket,
    sequence: u32,
    fast_open_cookie: Option<TcpFastOpenCookie>,
) -> TcpSegment {
    TcpSegment {
        local: packet.local,
        remote: packet.remote,
        sequence,
        acknowledgment: packet.sequence.spec_advance(1).value,
        advertised_window: packet.advertised_window,
        flags: connection_model::syn_ack(capabilities.ecn),
        capabilities,
        sack_blocks: no_sack_blocks(),
        timestamp: challenge_timestamp(packet),
        fast_open_cookie,
        ip_ecn: None,
        payload_len: 0,
    }
}

/// `after` and `reply` are what a listener makes of a SYN that opens nothing yet.
pub open spec fn challenged(
    before: TcpLookupState,
    after: TcpLookupState,
    listener_id: TcpLookupId,
    capabilities: TcpCapabilities,
    packet: TcpPacket,
    now_secs: u64,
    reply: Option<TcpSegment>,
) -> bool {
    let entry = pending_entry(listener_id, packet, now_secs);
    let left = listener_pending::pruned(before.listener_pending@, entry.created_epoch);
    let admitted = listener_pending::admits(left, entry, TCP_LISTENER_BACKLOG);
    let syn_epoch = lookup::epoch_at(now_secs, TCP_LISTENER_COOKIE_ROTATION_SECS);
    let fast_epoch = lookup::epoch_at(now_secs, TCP_FAST_OPEN_COOKIE_ROTATION_SECS);
    &&& (reply is Some) == admitted
    &&& after == (TcpLookupState {
        listener_pending: after.listener_pending,
        listener_cookie_secrets: after.listener_cookie_secrets,
        fast_open_secrets: after.fast_open_secrets,
        ..before
    })
    &&& !admitted ==> {
        &&& after.listener_pending@ == left
        &&& after.listener_cookie_secrets == before.listener_cookie_secrets
        &&& after.fast_open_secrets == before.fast_open_secrets
    }
    &&& admitted ==> {
        &&& after.listener_pending@ == left.insert(entry.key(), entry)
        &&& cookies::key_ready(
            before.listener_cookie_secrets@,
            after.listener_cookie_secrets@,
            listener_id,
            syn_epoch,
            TCP_LISTENER_COOKIE_PREVIOUS_EPOCH_WINDOW,
        )
        &&& reply == Some(
            challenge(
                capabilities,
                packet,
                cookies::listener_word(
                    after.listener_cookie_secrets@[(listener_id, syn_epoch)],
                    listener_id,
                    packet.local,
                    packet.remote,
                    packet.sequence.value,
                    syn_epoch,
                ),
                reply->0.fast_open_cookie,
            ),
        )
        &&& (reply->0.fast_open_cookie is Some) == capabilities.fast_open
        &&& !capabilities.fast_open ==> after.fast_open_secrets == before.fast_open_secrets
        &&& capabilities.fast_open ==> {
            &&& cookies::key_ready(
                before.fast_open_secrets@,
                after.fast_open_secrets@,
                listener_id,
                fast_epoch,
                TCP_FAST_OPEN_COOKIE_PREVIOUS_EPOCH_WINDOW,
            )
            &&& reply->0.fast_open_cookie->0.len == TCP_FAST_OPEN_COOKIE_LEN
            &&& reply->0.fast_open_cookie->0@ == cookies::fast_open_bytes(
                after.fast_open_secrets@[(listener_id, fast_epoch)],
                listener_id,
                packet.local,
                packet.remote,
                fast_epoch,
            )
        }
    }
}

/// Answers a SYN with a cookie, if there is room for its handshake to wait.
pub fn tcp_issue_listener_challenge(
    state: &mut TcpLookupState,
    listener_id: TcpLookupId,
    capabilities: TcpCapabilities,
    packet: &TcpPacket,
    now_secs: u64,
) -> (r: Option<TcpSegment>)
    requires
        old(state).well_formed(),
    ensures
        final(state).well_formed(),
        challenged(
            *old(state),
            *final(state),
            listener_id,
            capabilities,
            *packet,
            now_secs,
            r,
        ),
{
    let admitted: bool = state.begin_listener_pending(
        listener_id,
        packet.local,
        packet.remote,
        packet.sequence.raw(),
        packet.advertised_window,
        packet.capabilities,
        packet.timestamp,
        TCP_LISTENER_BACKLOG,
        now_secs,
    );
    if !admitted {
        return None;
    }
    let sequence: u32 = state.listener_cookie_for_syn(
        listener_id,
        packet.local,
        packet.remote,
        packet.sequence.raw(),
        now_secs,
    );
    let fast_open_cookie = if capabilities.fast_open {
        Some(
            state.fast_open_cookie_for_listener(
                listener_id,
                packet.local,
                packet.remote,
                now_secs,
            ),
        )
    } else {
        None
    };
    let timestamp = match packet.timestamp {
        Some(timestamp) => Some(
            TcpTimestampOption {
                tsval: if timestamp.tsecr == 0 {
                    1
                } else {
                    timestamp.tsecr
                },
                tsecr: timestamp.tsval,
            },
        ),
        None => None,
    };
    let flags = TcpSegmentFlags {
        syn: true,
        ack: true,
        ece: capabilities.ecn,
        ..TcpSegmentFlags::empty()
    };
    Some(
        TcpSegment {
            local: packet.local,
            remote: packet.remote,
            sequence,
            acknowledgment: packet.sequence.advance(1).raw(),
            advertised_window: packet.advertised_window,
            flags,
            capabilities,
            sack_blocks: TcpSackList { first: None, second: None, third: None, fourth: None },
            timestamp,
            fast_open_cookie,
            ip_ecn: None,
            payload_len: 0,
        },
    )
}

/// The cookie that an acknowledgment vouches for: the position before it.
pub open spec fn vouched_cookie(acknowledgment: TcpSeq) -> u32 {
    acknowledgment.value.wrapping_sub(1)
}

/// `after` and `found` are what a listener makes of a segment that may complete a
/// handshake.
pub open spec fn open_awaited(
    before: TcpLookupState,
    after: TcpLookupState,
    listener_id: TcpLookupId,
    packet: TcpPacket,
    now_secs: u64,
    found: Option<TcpListenerOpen>,
) -> bool {
    let left = listener_pending::pruned(
        before.listener_pending@,
        lookup::epoch_at(now_secs, TCP_LISTENER_PENDING_ROTATION_SECS),
    );
    let key = tuple::key_of(packet.local, packet.remote);
    &&& after == (TcpLookupState {
        listener_pending: after.listener_pending,
        listener_cookie_secrets: after.listener_cookie_secrets,
        ..before
    })
    &&& match packet.acknowledgment {
        None => found is None && after == before,
        Some(acknowledgment) => {
            &&& after.listener_pending@ == left
            &&& if left.contains_key(key) && left[key].listener_id == listener_id {
                &&& cookies::listener_validation(
                    before.listener_cookie_secrets@,
                    after.listener_cookie_secrets@,
                    listener_id,
                    packet.local,
                    packet.remote,
                    left[key].client_sequence,
                    vouched_cookie(acknowledgment),
                    lookup::epoch_at(now_secs, TCP_LISTENER_COOKIE_ROTATION_SECS),
                    found is Some,
                )
                &&& found is Some ==> found->0 == (TcpListenerOpen {
                    pending: left[key],
                    cookie: vouched_cookie(acknowledgment),
                })
            } else {
                found is None && after.listener_cookie_secrets == before.listener_cookie_secrets
            }
        },
    }
}

/// The handshake that a segment completes, if its acknowledgment vouches for the
/// cookie that the handshake's SYN was answered with.
pub fn tcp_listener_open(
    state: &mut TcpLookupState,
    listener_id: TcpLookupId,
    packet: &TcpPacket,
    now_secs: u64,
) -> (r: Option<TcpListenerOpen>)
    requires
        old(state).well_formed(),
    ensures
        final(state).well_formed(),
        open_awaited(*old(state), *final(state), listener_id, *packet, now_secs, r),
{
    let Some(acknowledgment) = packet.acknowledgment else {
        return None;
    };
    let cookie: u32 = acknowledgment.raw().wrapping_sub(1);
    let Some(pending) = state.listener_pending(
        listener_id,
        packet.local,
        packet.remote,
        now_secs,
    ) else {
        return None;
    };
    let valid: bool = state.validate_listener_cookie(
        listener_id,
        packet.local,
        packet.remote,
        pending.client_sequence,
        cookie,
        now_secs,
    );
    if !valid {
        return None;
    }
    Some(TcpListenerOpen { pending, cookie })
}

/// The action that follows from an answer to a SYN.
pub open spec fn reply_action(reply: Option<TcpSegment>) -> TcpListenAction {
    match reply {
        Some(segment) => TcpListenAction::Reply { segment },
        None => TcpListenAction::Ignore,
    }
}

/// The action that follows from a segment that may complete a handshake.
pub open spec fn open_action(found: Option<TcpListenerOpen>) -> TcpListenAction {
    match found {
        Some(open) => TcpListenAction::Complete { open },
        None => TcpListenAction::Ignore,
    }
}

/// `after` and `action` are what a listener makes of a SYN.
pub open spec fn syn_handled(
    before: TcpLookupState,
    after: TcpLookupState,
    listener_id: TcpLookupId,
    capabilities: TcpCapabilities,
    packet: TcpPacket,
    now_secs: u64,
    action: TcpListenAction,
) -> bool {
    ||| {
        &&& action is FastOpen
        &&& fast_open_checked(
            before,
            after,
            listener_id,
            capabilities,
            packet,
            now_secs,
            true,
        )
    }
    ||| exists|middle: TcpLookupState, reply: Option<TcpSegment>|
        {
            &&& fast_open_checked(
                before,
                middle,
                listener_id,
                capabilities,
                packet,
                now_secs,
                false,
            )
            &&& #[trigger] challenged(
                middle,
                after,
                listener_id,
                capabilities,
                packet,
                now_secs,
                reply,
            )
            &&& action == reply_action(reply)
        }
}

/// `after` and `action` are what a listener makes of a segment.
pub open spec fn listener_handled(
    before: TcpLookupState,
    after: TcpLookupState,
    listener_id: TcpLookupId,
    capabilities: TcpCapabilities,
    packet: TcpPacket,
    now_secs: u64,
    action: TcpListenAction,
) -> bool {
    if packet.flags == syn_only() {
        syn_handled(before, after, listener_id, capabilities, packet, now_secs, action)
    } else if packet.flags.ack && !packet.flags.rst {
        exists|found: Option<TcpListenerOpen>|
            {
                &&& #[trigger] open_awaited(
                    before,
                    after,
                    listener_id,
                    packet,
                    now_secs,
                    found,
                )
                &&& action == open_action(found)
            }
    } else {
        after == before && action is Ignore
    }
}

/// Decides what a listener does about a segment.
pub fn tcp_handle_listener_packet(
    state: &mut TcpLookupState,
    listener_id: TcpLookupId,
    capabilities: TcpCapabilities,
    packet: &TcpPacket,
    now_secs: u64,
) -> (r: TcpListenAction)
    requires
        old(state).well_formed(),
        packet.fast_open_cookie is Some ==> packet.fast_open_cookie->0.well_formed(),
    ensures
        final(state).well_formed(),
        listener_handled(
            *old(state),
            *final(state),
            listener_id,
            capabilities,
            *packet,
            now_secs,
            r,
        ),
{
    if packet.flags == TcpSegmentFlags::syn() {
        if tcp_fast_open_accepted(state, listener_id, capabilities, packet, now_secs) {
            return TcpListenAction::FastOpen;
        }
        let ghost middle = *state;
        let reply = tcp_issue_listener_challenge(
            state,
            listener_id,
            capabilities,
            packet,
            now_secs,
        );
        assert(challenged(
            middle,
            *state,
            listener_id,
            capabilities,
            *packet,
            now_secs,
            reply,
        ));
        return match reply {
            Some(segment) => TcpListenAction::Reply { segment },
            None => TcpListenAction::Ignore,
        };
    }
    if packet.flags.ack && !packet.flags.rst {
        let found = tcp_listener_open(state, listener_id, packet, now_secs);
        assert(open_awaited(*old(state), *state, listener_id, *packet, now_secs, found));
        return match found {
            Some(open) => TcpListenAction::Complete { open },
            None => TcpListenAction::Ignore,
        };
    }
    TcpListenAction::Ignore
}

/// A connection that a listener is about to open.
pub open spec fn listened<C: CongestionController>(
    session_id: SessionId,
    worker: DataWorkerId,
    packet: TcpPacket,
    recovery: TcpRecoveryState,
) -> TcpConnection<C> {
    TcpConnection::<C>::fresh(
        Some(TcpConnectionId { value: session_id.value }),
        worker,
        packet.local.port,
        Some(packet.local),
        packet.remote,
        recovery,
    )
}

/// `connection` and `reply` are what a SYN whose data was taken leads to.
pub open spec fn fast_opened<C: CongestionController>(
    connection: TcpConnection<C>,
    reply: TcpSegment,
    session_id: SessionId,
    worker: DataWorkerId,
    capabilities: TcpCapabilities,
    packet: TcpPacket,
    now: Instant,
) -> bool {
    let offering = listened::<C>(
        session_id,
        worker,
        packet,
        connection.recovery,
    ).with_local_capabilities(capabilities);
    let accepted = offering.syn_accepted(packet, packet.payload_len, now);
    let flags = connection_model::syn_ack(accepted.options.negotiated.ecn);
    &&& connection.recovery@ == recovery_model::initial_recovery()
    &&& connection == accepted.after_control(flags, now)
    &&& reply == accepted.control(packet, flags, None, now)
}

/// Opens a connection for a SYN whose data was taken.
pub fn tcp_accept_listener_fast_open<C: CongestionController>(
    session_id: SessionId,
    worker: DataWorkerId,
    capabilities: TcpCapabilities,
    packet: &TcpPacket,
    now: Instant,
) -> (r: (TcpConnection<C>, TcpSegment))
    requires
        packet.flags == syn_only(),
    ensures
        r.0.well_formed(),
        fast_opened(r.0, r.1, session_id, worker, capabilities, *packet, now),
{
    let mut connection = TcpConnection::<C>::new(
        Some(TcpConnectionId::new(session_id.get())),
        worker,
        packet.local.port(),
        Some(packet.local),
        packet.remote,
    );
    connection.set_local_capabilities(capabilities);
    match connection.receive_syn(packet, packet.payload_len, now) {
        Ok(Some(segment)) => (connection, segment),
        _ => vstd::pervasive::unreached(),
    }
}

/// The SYN that a handshake began with, as far as its entry keeps it.
pub open spec fn remembered_syn(open: TcpListenerOpen, packet: TcpPacket, syn: TcpPacket) -> bool {
    &&& syn.local == packet.local
    &&& syn.remote == packet.remote
    &&& syn.sequence.value == open.pending.client_sequence
    &&& syn.acknowledgment is None
    &&& syn.advertised_window == open.pending.advertised_window
    &&& syn.flags == syn_only()
    &&& syn.capabilities == open.pending.capabilities
    &&& syn.sack_blocks@.len() == 0
    &&& syn.timestamp == open.pending.timestamp
    &&& syn.fast_open_cookie is None
    &&& syn.ip_ecn is None
    &&& syn.payload_offset == 0
    &&& syn.payload_len == 0
}

/// The SYN that a handshake began with, as far as its entry keeps it.
fn syn_of_open(open: TcpListenerOpen, packet: &TcpPacket) -> (r: TcpPacket)
    ensures
        remembered_syn(open, *packet, r),
{
    TcpPacket {
        local: packet.local,
        remote: packet.remote,
        sequence: TcpSeq::new(open.pending.client_sequence),
        acknowledgment: None,
        advertised_window: open.pending.advertised_window,
        flags: TcpSegmentFlags::syn(),
        capabilities: open.pending.capabilities,
        sack_blocks: Vec::new(),
        timestamp: open.pending.timestamp,
        fast_open_cookie: None,
        ip_ecn: None,
        payload_offset: 0,
        payload_len: 0,
    }
}

/// A connection that has taken in the SYN of a handshake, under the cookie that
/// answered it.
pub open spec fn syn_replayed<C: CongestionController>(
    connection: TcpConnection<C>,
    cookie: u32,
    syn: TcpPacket,
    now: Instant,
) -> TcpConnection<C> {
    let accepted = connection.connecting(cookie).syn_accepted(syn, 0, now);
    accepted.after_control(
        connection_model::syn_ack(accepted.options.negotiated.ecn),
        now,
    )
}

/// `connection` and `reply` are what the segment that completes a handshake leads to.
pub open spec fn open_completed<C: CongestionController>(
    connection: TcpConnection<C>,
    reply: Option<TcpSegment>,
    session_id: SessionId,
    worker: DataWorkerId,
    capabilities: TcpCapabilities,
    packet: TcpPacket,
    open: TcpListenerOpen,
    now: Instant,
) -> bool {
    &&& connection.recovery@ == recovery_model::initial_recovery()
    &&& exists|syn: TcpPacket|
        {
            let offering = listened::<C>(
                session_id,
                worker,
                packet,
                connection.recovery,
            ).with_local_capabilities(capabilities);
            &&& #[trigger] remembered_syn(open, packet, syn)
            &&& (connection, reply) == syn_replayed(offering, open.cookie, syn, now).final_ack(
                packet,
                now,
            )
        }
}

/// Opens a connection for a handshake that is complete: its SYN is taken in as it
/// was remembered, and then the segment that completes it. The answer, if there
/// is one, is a reset.
pub fn tcp_complete_listener_open<C: CongestionController>(
    session_id: SessionId,
    worker: DataWorkerId,
    capabilities: TcpCapabilities,
    packet: &TcpPacket,
    open: TcpListenerOpen,
    now: Instant,
) -> (r: (TcpConnection<C>, Option<TcpSegment>))
    ensures
        r.0.well_formed(),
        open_completed(r.0, r.1, session_id, worker, capabilities, *packet, open, now),
{
    let mut connection = TcpConnection::<C>::new(
        Some(TcpConnectionId::new(session_id.get())),
        worker,
        packet.local.port(),
        Some(packet.local),
        packet.remote,
    );
    connection.set_local_capabilities(capabilities);
    connection.connect_state(open.cookie);
    let syn = syn_of_open(open, packet);
    let _ = connection.receive_syn(&syn, 0, now);
    assert(remembered_syn(open, *packet, syn));
    match connection.receive_final_ack(packet, now) {
        Ok(answer) => (connection, answer),
        Err(_) => vstd::pervasive::unreached(),
    }
}

/// `after` knows of a connection that a listener opened, and no longer of its
/// handshake.
pub open spec fn made_known<C: CongestionController>(
    before: TcpLookupState,
    after: TcpLookupState,
    session_id: SessionId,
    connection: TcpConnection<C>,
    listener_id: TcpLookupId,
    packet: TcpPacket,
) -> bool {
    let key = tuple::key_of(packet.local, packet.remote);
    let waiting = before.listener_pending@;
    &&& after == (TcpLookupState {
        connections: after.connections,
        pending: after.pending,
        listener_pending: after.listener_pending,
        ..before
    })
    &&& after.connections@ == before.published_connections(session_id, connection)
    &&& after.pending@ == before.published_pending(session_id, connection)
    &&& after.listener_pending@ == (if waiting.contains_key(key) && waiting[key].listener_id
        == listener_id {
        waiting.remove(key)
    } else {
        waiting
    })
}

/// Makes a connection that a listener opened known, and takes its handshake out
/// of the table. `true` asks to close its session.
pub fn tcp_listener_opened<C: CongestionController>(
    state: &mut TcpLookupState,
    session_id: SessionId,
    connection: &TcpConnection<C>,
    listener_id: TcpLookupId,
    packet: &TcpPacket,
) -> (r: bool)
    requires
        old(state).well_formed(),
        old(state).has_room(session_id, *connection),
    ensures
        final(state).well_formed(),
        r == (connection.state == TcpState::Closed),
        made_known(
            *old(state),
            *final(state),
            session_id,
            *connection,
            listener_id,
            *packet,
        ),
{
    let close: bool = state.publish_connection(session_id, connection);
    state.finish_listener_pending(listener_id, packet.local, packet.remote);
    close
}

/// Where the segment that opened a connection goes on to.
pub open spec fn forward_route(
    listener: TcpLookupValue,
    session_id: Option<SessionId>,
    packet: TcpPacket,
) -> Option<TcpRoute> {
    match session_id {
        Some(session_id) if packet.payload_len != 0 && packet.flags != syn_only() => Some(
            TcpRoute {
                session_id,
                owner: listener.owner_worker,
                next: TcpInputNext::Established,
            },
        ),
        _ => None,
    }
}

/// Where the segment that opened a connection goes on to: with a payload that was
/// not taken yet, to the stage for established connections.
pub fn tcp_listen_forward(
    listener: TcpLookupValue,
    session_id: Option<SessionId>,
    packet: &TcpPacket,
) -> (r: Option<TcpRoute>)
    ensures
        r == forward_route(listener, session_id, *packet),
{
    match session_id {
        Some(session_id) => {
            if packet.payload_len != 0 && packet.flags != TcpSegmentFlags::syn() {
                Some(
                    TcpRoute {
                        session_id,
                        owner: listener.owner_worker,
                        next: TcpInputNext::Established,
                    },
                )
            } else {
                None
            }
        },
        None => None,
    }
}

/// A handshake that was challenged in `asked` still waits in `held`: its entry is
/// there, and so is the key that its cookie was made with.
pub open spec fn still_waits(
    asked: TcpLookupState,
    held: TcpLookupState,
    listener_id: TcpLookupId,
    syn: TcpPacket,
    asked_secs: u64,
) -> bool {
    let entry = pending_entry(listener_id, syn, asked_secs);
    let key = (listener_id, lookup::epoch_at(asked_secs, TCP_LISTENER_COOKIE_ROTATION_SECS));
    &&& held.listener_pending@.contains_key(entry.key())
    &&& held.listener_pending@[entry.key()] == entry
    &&& held.listener_cookie_secrets@.contains_key(key)
    &&& held.listener_cookie_secrets@[key] == asked.listener_cookie_secrets@[key]
}

/// Neither an entry nor a cookie of `asked_secs` has expired at `now_secs`.
pub open spec fn in_time(asked_secs: u64, now_secs: u64) -> bool {
    let issued = lookup::epoch_at(asked_secs, TCP_LISTENER_COOKIE_ROTATION_SECS);
    let checked = lookup::epoch_at(now_secs, TCP_LISTENER_COOKIE_ROTATION_SECS);
    &&& listener_pending::in_window(
        lookup::epoch_at(asked_secs, TCP_LISTENER_PENDING_ROTATION_SECS),
        lookup::epoch_at(now_secs, TCP_LISTENER_PENDING_ROTATION_SECS),
    )
    &&& checked == issued || checked == issued + 1
}

/// A handshake waits from its challenge on.
pub proof fn challenge_waits(
    before: TcpLookupState,
    asked: TcpLookupState,
    listener_id: TcpLookupId,
    capabilities: TcpCapabilities,
    syn: TcpPacket,
    asked_secs: u64,
    reply: TcpSegment,
)
    requires
        challenged(before, asked, listener_id, capabilities, syn, asked_secs, Some(reply)),
    ensures
        still_waits(asked, asked, listener_id, syn, asked_secs),
{
}

/// A challenge to another pair of addresses, answered or not, leaves a handshake
/// waiting that has not expired.
pub proof fn other_challenge_keeps_waiting(
    asked: TcpLookupState,
    held: TcpLookupState,
    after: TcpLookupState,
    listener_id: TcpLookupId,
    syn: TcpPacket,
    asked_secs: u64,
    other_listener_id: TcpLookupId,
    other_capabilities: TcpCapabilities,
    other: TcpPacket,
    now_secs: u64,
    reply: Option<TcpSegment>,
)
    requires
        still_waits(asked, held, listener_id, syn, asked_secs),
        in_time(asked_secs, now_secs),
        tuple::key_of(other.local, other.remote) != tuple::key_of(syn.local, syn.remote),
        challenged(held, after, other_listener_id, other_capabilities, other, now_secs, reply),
    ensures
        still_waits(asked, after, listener_id, syn, asked_secs),
{
    assert(pending_entry(listener_id, syn, asked_secs).key() == tuple::key_of(
        syn.local,
        syn.remote,
    ));
    assert(pending_entry(other_listener_id, other, now_secs).key() == tuple::key_of(
        other.local,
        other.remote,
    ));
}

/// So does a connection that is opened between another pair of addresses.
pub proof fn other_open_keeps_waiting<C: CongestionController>(
    asked: TcpLookupState,
    held: TcpLookupState,
    after: TcpLookupState,
    listener_id: TcpLookupId,
    syn: TcpPacket,
    asked_secs: u64,
    session_id: SessionId,
    connection: TcpConnection<C>,
    other_listener_id: TcpLookupId,
    other: TcpPacket,
)
    requires
        still_waits(asked, held, listener_id, syn, asked_secs),
        tuple::key_of(other.local, other.remote) != tuple::key_of(syn.local, syn.remote),
        made_known(held, after, session_id, connection, other_listener_id, other),
    ensures
        still_waits(asked, after, listener_id, syn, asked_secs),
{
}

/// An acknowledgment of the SYN-ACK that answered a SYN completes the handshake in
/// any later state in which it still waits, as long as neither the entry nor the
/// cookie has expired.
pub proof fn acknowledged_challenge_opens(
    before: TcpLookupState,
    asked: TcpLookupState,
    held: TcpLookupState,
    after: TcpLookupState,
    listener_id: TcpLookupId,
    capabilities: TcpCapabilities,
    syn: TcpPacket,
    asked_secs: u64,
    reply: TcpSegment,
    packet: TcpPacket,
    now_secs: u64,
    found: Option<TcpListenerOpen>,
)
    requires
        challenged(before, asked, listener_id, capabilities, syn, asked_secs, Some(reply)),
        still_waits(asked, held, listener_id, syn, asked_secs),
        in_time(asked_secs, now_secs),
        packet.local == syn.local,
        packet.remote == syn.remote,
        packet.acknowledgment == Some(TcpSeq { value: reply.sequence }.spec_advance(1)),
        open_awaited(held, after, listener_id, packet, now_secs, found),
    ensures
        found == Some(
            TcpListenerOpen {
                pending: pending_entry(listener_id, syn, asked_secs),
                cookie: reply.sequence,
            },
        ),
{
    let issued = lookup::epoch_at(asked_secs, TCP_LISTENER_COOKIE_ROTATION_SECS);
    let checked = lookup::epoch_at(now_secs, TCP_LISTENER_COOKIE_ROTATION_SECS);
    assert(vouched_cookie(packet.acknowledgment->0) == reply.sequence);
    cookies::issued_syn_cookie_is_accepted(
        held.listener_cookie_secrets@,
        after.listener_cookie_secrets@,
        listener_id,
        syn.local,
        syn.remote,
        syn.sequence.value,
        issued,
        checked,
        found is Some,
    );
}

/// The connection of a completed handshake is established, expects the byte after
/// the peer's SYN, and has nothing outstanding. The segment that completed it is
/// not answered, and its payload is left to be received.
pub proof fn completed_open_is_established<C: CongestionController>(
    offering: TcpConnection<C>,
    open: TcpListenerOpen,
    syn: TcpPacket,
    packet: TcpPacket,
    now: Instant,
)
    requires
        remembered_syn(open, packet, syn),
        open.cookie != 0,
        connection_laws::acks(packet, (TcpSeq { value: open.cookie }).spec_advance(1)),
        !packet.flags.rst,
        syn_replayed(offering, open.cookie, syn, now).timestamp_passes(packet, now),
    ensures
        ({
            let opened = syn_replayed(offering, open.cookie, syn, now).final_ack(packet, now);
            &&& opened.0.state == TcpState::Established
            &&& opened.0.rcv_nxt == (TcpSeq {
                value: open.pending.client_sequence,
            }).spec_advance(1)
            &&& opened.0.snd_una == (TcpSeq { value: open.cookie }).spec_advance(1)
            &&& opened.0.snd_nxt == opened.0.snd_una
            &&& opened.1 is None
        }),
{
    connection_laws::passive_open_establishes(
        offering.connecting(open.cookie),
        syn,
        packet,
        now,
        now,
    );
}

/// A SYN opens a connection at once only under a fast open cookie, and then it
/// takes no place in the table of handshakes.
pub proof fn fast_open_bypasses_the_backlog(
    before: TcpLookupState,
    after: TcpLookupState,
    listener_id: TcpLookupId,
    capabilities: TcpCapabilities,
    packet: TcpPacket,
    now_secs: u64,
    action: TcpListenAction,
)
    requires
        listener_handled(
            before,
            after,
            listener_id,
            capabilities,
            packet,
            now_secs,
            action,
        ),
        action is FastOpen,
    ensures
        presented_cookie(capabilities, packet) is Some,
        after.listener_pending == before.listener_pending,
        after.connections == before.connections,
        after.pending == before.pending,
{
}

/// A segment that completes no handshake leaves every route as it was: without a
/// valid cookie no connection comes to be.
pub proof fn refused_segments_open_nothing(
    before: TcpLookupState,
    after: TcpLookupState,
    listener_id: TcpLookupId,
    capabilities: TcpCapabilities,
    packet: TcpPacket,
    now_secs: u64,
    action: TcpListenAction,
)
    requires
        listener_handled(
            before,
            after,
            listener_id,
            capabilities,
            packet,
            now_secs,
            action,
        ),
    ensures
        after.connections == before.connections,
        after.pending == before.pending,
        after.listeners == before.listeners,
{
}

/// Once the connection of a completed handshake is known, segments between its
/// addresses lead to it as an established one, and the handshake no longer waits.
/// Every other handshake still does.
pub proof fn completed_open_is_known<C: CongestionController>(
    before: TcpLookupState,
    checked: TcpLookupState,
    after: TcpLookupState,
    session_id: SessionId,
    connection: TcpConnection<C>,
    listener_id: TcpLookupId,
    packet: TcpPacket,
    now_secs: u64,
    open: TcpListenerOpen,
)
    requires
        open_awaited(before, checked, listener_id, packet, now_secs, Some(open)),
        checked.well_formed(),
        made_known(checked, after, session_id, connection, listener_id, packet),
        connection.state == TcpState::Established,
        connection.local == Some(packet.local),
        connection.remote == packet.remote,
        tuple::tuple_of(packet.local, packet.remote) is Some,
    ensures
        after.route_of(packet.local, packet.remote) == Some(
            TcpRoute {
                session_id,
                owner: connection.owner_worker,
                next: TcpInputNext::Established,
            },
        ),
        ({
            let key = tuple::key_of(packet.local, packet.remote);
            &&& checked.listener_pending@.contains_key(key)
            &&& after.listener_pending@ == checked.listener_pending@.remove(key)
        }),
{
    lookup::published_connection_is_routed(
        checked,
        after,
        session_id,
        connection,
        packet.local,
    );
}

/// A segment that does not complete a handshake opens nothing, and the handshake
/// between its addresses goes on waiting as it was, until it expires.
pub proof fn refused_open_keeps_waiting(
    before: TcpLookupState,
    after: TcpLookupState,
    listener_id: TcpLookupId,
    packet: TcpPacket,
    now_secs: u64,
)
    requires
        open_awaited(before, after, listener_id, packet, now_secs, None),
    ensures
        after.connections == before.connections,
        after.pending == before.pending,
        ({
            let key = tuple::key_of(packet.local, packet.remote);
            let waiting = before.listener_pending@;
            waiting.contains_key(key) && listener_pending::in_window(
                waiting[key].created_epoch,
                lookup::epoch_at(now_secs, TCP_LISTENER_PENDING_ROTATION_SECS),
            ) ==> after.listener_pending@.contains_key(key) && after.listener_pending@[key]
                == waiting[key]
        }),
{
}

} // verus!
