//! Where a segment that comes in goes: to its connection, to a listener, or to
//! nobody.
use vstd::prelude::*;
use vstd::slice::slice_subrange;

use crate::bytes;
use crate::bytes::{be_u128, be_u16, be_u32, push_be16, push_be32};
use crate::tcp::control_plane;
use crate::tcp::control_plane::listener_in_snapshot;
use crate::tcp::cursor::PacketCursor;
use crate::tcp::errors::TcpError;
use crate::tcp::header;
use crate::tcp::header::tcp_header;
use crate::tcp::listener_pending;
use crate::tcp::listeners::{TcpLookupSnapshot, TcpLookupValue};
use crate::tcp::lookup::{TcpLookupState, TcpRoute};
use crate::tcp::reset;
use crate::tcp::reset::IP_PROTOCOL_TCP;
use crate::tcp::tuple;
use crate::tcp::types::{DataWorkerId, IpAddress, SocketAddress, TcpSegmentFlags};
use crate::tcp::TcpInputNext;

verus! {

#[derive(Clone, Copy, Debug, PartialEq, Eq, Structural)]
pub enum IpVersion {
    V4,
    V6,
}

/// What the network layer found out about a packet.
#[derive(Clone, Copy, Debug, PartialEq, Eq, Structural)]
pub struct IpSummary {
    pub version: IpVersion,
    /// The number of the protocol that the packet carries.
    pub protocol: u8,
    /// The length of the packet, over all its buffers.
    pub packet_len: usize,
    /// The network layer has no objection to the packet.
    pub valid: bool,
}

/// The flags that decide where a segment goes.
#[derive(Clone, Copy, Debug, PartialEq, Eq, Structural)]
pub struct TcpInputFlags {
    pub fin: bool,
    pub syn: bool,
    pub rst: bool,
    pub ack: bool,
}

/// Only SYN set.
pub open spec fn syn_alone() -> TcpInputFlags {
    TcpInputFlags { fin: false, syn: true, rst: false, ack: false }
}

impl TcpInputFlags {
    /// The flags as they stand in a header's flag byte.
    pub open spec fn spec_bits(self) -> u8 {
        ((if self.fin {
            0x01int
        } else {
            0
        }) + (if self.syn {
            0x02int
        } else {
            0
        }) + (if self.rst {
            0x04int
        } else {
            0
        }) + (if self.ack {
            0x10int
        } else {
            0
        })) as u8
    }

    pub fn bits(self) -> (r: u8)
        ensures
            r == self.spec_bits(),
    {
        let fin: u8 = if self.fin {
            0x01
        } else {
            0
        };
        let syn: u8 = if self.syn {
            0x02
        } else {
            0
        };
        let rst: u8 = if self.rst {
            0x04
        } else {
            0
        };
        let ack: u8 = if self.ack {
            0x10
        } else {
            0
        };
        fin + syn + rst + ack
    }
}

/// The flags of a header that decide where its segment goes.
pub open spec fn deciding_flags(flags: TcpSegmentFlags) -> TcpInputFlags {
    TcpInputFlags { fin: flags.fin, syn: flags.syn, rst: flags.rst, ack: flags.ack }
}

pub fn tcp_input_flags(flags: TcpSegmentFlags) -> (r: TcpInputFlags)
    ensures
        r == deciding_flags(flags),
{
    TcpInputFlags { fin: flags.fin, syn: flags.syn, rst: flags.rst, ack: flags.ack }
}

/// What the input stage reads of a segment.
#[derive(Clone, Copy, Debug, PartialEq, Eq, Structural)]
pub struct TcpInputSegment {
    pub version: IpVersion,
    pub protocol: u8,
    pub local: SocketAddress,
    pub remote: SocketAddress,
    pub flags: TcpInputFlags,
}

/// Why the input stage cannot read a segment.
#[derive(Clone, Copy, Debug, PartialEq, Eq, Structural)]
pub enum TcpInputParseError {
    /// A length is wrong.
    BadLength,
    /// The packet carries something else.
    WrongProtocol { version: IpVersion, protocol: u8 },
    /// The first buffer ends before the addresses do.
    AddressesMissing,
}

/// The cursor's transport header starts within the packet.
pub open spec fn cursor_valid(cursor: PacketCursor) -> bool {
    cursor.packet_len >= cursor.transport_header_offset
}

/// The addresses end where the network header does without its options.
pub open spec fn addresses_end(version: IpVersion) -> int {
    match version {
        IpVersion::V4 => 20,
        IpVersion::V6 => 40,
    }
}

/// The sender's address in a packet.
pub open spec fn sender_of(version: IpVersion, packet: Seq<u8>) -> IpAddress {
    match version {
        IpVersion::V4 => IpAddress::V4(reset::word_at(packet, 12)),
        IpVersion::V6 => IpAddress::V6(bytes::read128(packet, 8)),
    }
}

/// The receiver's address in a packet.
pub open spec fn receiver_of(version: IpVersion, packet: Seq<u8>) -> IpAddress {
    match version {
        IpVersion::V4 => IpAddress::V4(reset::word_at(packet, 16)),
        IpVersion::V6 => IpAddress::V6(bytes::read128(packet, 24)),
    }
}

/// How much of a packet its first buffer holds.
pub open spec fn first_len(current: Seq<u8>, ip: IpSummary) -> int {
    vstd::math::min(current.len() as int, ip.packet_len as int)
}

/// What the input stage reads of the packet whose first buffer holds `current`.
pub open spec fn input_segment(
    current: Seq<u8>,
    ip: Option<IpSummary>,
    cursor: PacketCursor,
) -> Result<TcpInputSegment, TcpInputParseError> {
    match ip {
        None => Err(TcpInputParseError::BadLength),
        Some(ip) => {
            let end = first_len(current, ip);
            if ip.protocol != IP_PROTOCOL_TCP {
                Err(
                    TcpInputParseError::WrongProtocol {
                        version: ip.version,
                        protocol: ip.protocol,
                    },
                )
            } else if !ip.valid || !cursor_valid(cursor) {
                Err(TcpInputParseError::BadLength)
            } else if end < addresses_end(ip.version) {
                Err(TcpInputParseError::AddressesMissing)
            } else if cursor.transport_header_offset > end {
                Err(TcpInputParseError::BadLength)
            } else {
                match header::header_of(
                    current.subrange(cursor.transport_header_offset as int, end),
                ) {
                    None => Err(TcpInputParseError::BadLength),
                    Some(tcp) => Ok(
                        TcpInputSegment {
                            version: ip.version,
                            protocol: ip.protocol,
                            local: SocketAddress::plain(
                                receiver_of(ip.version, current),
                                tcp.destination_port,
                            ),
                            remote: SocketAddress::plain(
                                sender_of(ip.version, current),
                                tcp.source_port,
                            ),
                            flags: deciding_flags(tcp.flags),
                        },
                    ),
                }
            }
        },
    }
}

/// Reads what decides where a segment goes.
pub fn parse_tcp_input_parts(current: &[u8], ip: Option<IpSummary>, cursor: PacketCursor) -> (r:
    Result<TcpInputSegment, TcpInputParseError>)
    ensures
        r == input_segment(current@, ip, cursor),
{
    let Some(ip) = ip else {
        return Err(TcpInputParseError::BadLength);
    };
    if ip.protocol != IP_PROTOCOL_TCP {
        return Err(
            TcpInputParseError::WrongProtocol { version: ip.version, protocol: ip.protocol },
        );
    }
    if !ip.valid || cursor.packet_len < cursor.transport_header_offset {
        return Err(TcpInputParseError::BadLength);
    }
    let count: usize = current.len();
    let end: usize = if count < ip.packet_len {
        count
    } else {
        ip.packet_len
    };
    let (sender, receiver) = match ip.version {
        IpVersion::V4 => {
            if end < 20 {
                return Err(TcpInputParseError::AddressesMissing);
            }
            (IpAddress::V4(be_u32(current, 12)), IpAddress::V4(be_u32(current, 16)))
        },
        IpVersion::V6 => {
            if end < 40 {
                return Err(TcpInputParseError::AddressesMissing);
            }
            (IpAddress::V6(be_u128(current, 8)), IpAddress::V6(be_u128(current, 24)))
        },
    };
    if cursor.transport_header_offset > end {
        return Err(TcpInputParseError::BadLength);
    }
    let transport = slice_subrange(current, cursor.transport_header_offset, end);
    let Some(tcp) = tcp_header(transport) else {
        return Err(TcpInputParseError::BadLength);
    };
    Ok(
        TcpInputSegment {
            version: ip.version,
            protocol: ip.protocol,
            local: SocketAddress::new(receiver, tcp.destination_port),
            remote: SocketAddress::new(sender, tcp.source_port),
            flags: tcp_input_flags(tcp.flags),
        },
    )
}

/// The two addresses are of one IP version.
pub open spec fn same_version(local: SocketAddress, remote: SocketAddress) -> bool {
    (local.ip is V4) == (remote.ip is V4)
}

/// The listener that a segment between two addresses is for.
pub open spec fn listener_for(
    snapshot: TcpLookupSnapshot,
    local: SocketAddress,
    remote: SocketAddress,
) -> Option<TcpLookupValue> {
    if same_version(local, remote) {
        control_plane::listener_at(snapshot, local)
    } else {
        None
    }
}

/// The listener that a segment between two addresses is for.
pub fn lookup_for_packet(
    snapshot: &TcpLookupSnapshot,
    local: SocketAddress,
    remote: SocketAddress,
) -> (r: Option<TcpLookupValue>)
    ensures
        r == listener_for(*snapshot, local, remote),
{
    match (local.ip, remote.ip) {
        (IpAddress::V4(_), IpAddress::V4(_)) => listener_in_snapshot(snapshot, local),
        (IpAddress::V6(_), IpAddress::V6(_)) => listener_in_snapshot(snapshot, local),
        _ => None,
    }
}

/// The segment can complete a handshake.
pub open spec fn may_complete(flags: TcpInputFlags) -> bool {
    flags.ack && !flags.rst
}

/// The connection that a segment belongs to, and, where it belongs to none,
/// whether its handshake waits for a listener. Without a session queue there are
/// neither.
pub fn session_or_listener_pending_input_entry(
    state: &mut TcpLookupState,
    has_queue: bool,
    local: SocketAddress,
    remote: SocketAddress,
    flags: TcpInputFlags,
    pending_epoch: u32,
) -> (r: (Option<TcpRoute>, bool))
    requires
        old(state).well_formed(),
    ensures
        final(state).well_formed(),
        ({
            let route = old(state).route_of(local, remote);
            let checked = has_queue && route is None && may_complete(flags);
            let left = listener_pending::pruned(old(state).listener_pending@, pending_epoch);
            &&& r.0 == (if has_queue {
                route
            } else {
                None
            })
            &&& r.1 == (checked && left.contains_key(tuple::key_of(local, remote)))
            &&& *final(state) == (TcpLookupState {
                listener_pending: final(state).listener_pending,
                ..*old(state)
            })
            &&& final(state).listener_pending@ == (if checked {
                left
            } else {
                old(state).listener_pending@
            })
        }),
{
    if !has_queue {
        return (None, false);
    }
    state.input_route(local, remote, flags.ack && !flags.rst, pending_epoch)
}

/// What a listener does with a segment that belongs to no connection: it takes a
/// plain SYN and ignores a reset. Anything else is answered with a reset, under
/// the error given.
pub open spec fn listener_entry(flags: TcpInputFlags) -> (TcpInputNext, Option<TcpError>) {
    if flags == syn_alone() {
        (TcpInputNext::Listen, None)
    } else if flags.rst {
        (TcpInputNext::Drop, None)
    } else if flags.ack || flags.syn {
        (TcpInputNext::Reset, Some(TcpError::AckInvalid))
    } else {
        (TcpInputNext::Reset, Some(TcpError::ConnectionClosed))
    }
}

pub fn tcp_listener_input_entry(flags: TcpInputFlags) -> (r: (TcpInputNext, Option<TcpError>))
    ensures
        r == listener_entry(flags),
{
    if flags.syn && !flags.fin && !flags.rst && !flags.ack {
        return (TcpInputNext::Listen, None);
    }
    if flags.rst {
        return (TcpInputNext::Drop, None);
    }
    if flags.ack || flags.syn {
        return (TcpInputNext::Reset, Some(TcpError::AckInvalid));
    }
    (TcpInputNext::Reset, Some(TcpError::ConnectionClosed))
}

/// What the input stage does with a buffer.
#[derive(Clone, Copy, Debug, PartialEq, Eq, Structural)]
pub enum TcpInputAction {
    /// The error is noted on the buffer.
    Reject { next: TcpInputNext, error: TcpError },
    /// The stage fails: the packet should not have come this far.
    Fail { error: TcpError },
    /// The route is written into the buffer.
    Session { route: TcpRoute },
    /// The route is written into the buffer, and the worker that owns the
    /// connection goes on with it.
    Handoff { route: TcpRoute },
    /// What an earlier stage wrote into the buffer is cleared.
    Listener { next: TcpInputNext },
}

/// A connection's segment stays on the worker that it came in on if nobody else
/// owns the connection, or if there is no way to hand it on.
pub open spec fn session_action(
    route: TcpRoute,
    handoff_worker: Option<DataWorkerId>,
) -> TcpInputAction {
    match handoff_worker {
        Some(worker) if route.owner != worker => TcpInputAction::Handoff { route },
        _ => TcpInputAction::Session { route },
    }
}

/// What happens to a segment that belongs to no connection.
pub open spec fn unconnected_action(
    flags: TcpInputFlags,
    waits: bool,
    listener: Option<TcpLookupValue>,
) -> TcpInputAction {
    let (next, error) = listener_entry(flags);
    if waits {
        TcpInputAction::Listener { next: TcpInputNext::Listen }
    } else if error is Some {
        TcpInputAction::Reject { next, error: error->0 }
    } else if listener is None {
        TcpInputAction::Reject { next: TcpInputNext::Punt, error: TcpError::ConnectionClosed }
    } else {
        TcpInputAction::Listener { next }
    }
}

/// What happens to a segment that could not be read.
pub open spec fn unread_action(error: TcpInputParseError) -> TcpInputAction {
    match error {
        TcpInputParseError::BadLength => TcpInputAction::Reject {
            next: TcpInputNext::Drop,
            error: TcpError::Length,
        },
        TcpInputParseError::WrongProtocol { .. } => TcpInputAction::Reject {
            next: TcpInputNext::Drop,
            error: TcpError::Dispatch,
        },
        TcpInputParseError::AddressesMissing => TcpInputAction::Fail { error: TcpError::Length },
    }
}

/// What happens to a segment, given what the worker knows.
pub open spec fn input_action(
    state: TcpLookupState,
    snapshot: TcpLookupSnapshot,
    has_queue: bool,
    handoff_worker: Option<DataWorkerId>,
    parsed: Result<TcpInputSegment, TcpInputParseError>,
    pending_epoch: u32,
) -> TcpInputAction {
    match parsed {
        Err(error) => unread_action(error),
        Ok(segment) => {
            let route = state.route_of(segment.local, segment.remote);
            if has_queue && route is Some {
                session_action(route->0, handoff_worker)
            } else {
                let left = listener_pending::pruned(state.listener_pending@, pending_epoch);
                unconnected_action(
                    segment.flags,
                    has_queue && may_complete(segment.flags) && left.contains_key(
                        tuple::key_of(segment.local, segment.remote),
                    ),
                    listener_for(snapshot, segment.local, segment.remote),
                )
            }
        },
    }
}

/// Whether a handshake waits for a listener matters.
pub open spec fn asks_for_pending(
    state: TcpLookupState,
    has_queue: bool,
    parsed: Result<TcpInputSegment, TcpInputParseError>,
) -> bool {
    match parsed {
        Ok(segment) => has_queue && may_complete(segment.flags) && state.route_of(
            segment.local,
            segment.remote,
        ) is None,
        Err(_) => false,
    }
}

/// Decides what happens to a segment. Looking for a handshake that waits for a
/// listener drops those that have waited too long; nothing else changes.
pub fn tcp_input_next(
    state: &mut TcpLookupState,
    snapshot: &TcpLookupSnapshot,
    has_queue: bool,
    handoff_worker: Option<DataWorkerId>,
    parsed: Result<TcpInputSegment, TcpInputParseError>,
    pending_epoch: u32,
) -> (r: TcpInputAction)
    requires
        old(state).well_formed(),
    ensures
        final(state).well_formed(),
        r == input_action(
            *old(state),
            *snapshot,
            has_queue,
            handoff_worker,
            parsed,
            pending_epoch,
        ),
        *final(state) == (TcpLookupState {
            listener_pending: final(state).listener_pending,
            ..*old(state)
        }),
        final(state).listener_pending@ == (if asks_for_pending(*old(state), has_queue, parsed) {
            listener_pending::pruned(old(state).listener_pending@, pending_epoch)
        } else {
            old(state).listener_pending@
        }),
{
    let segment = match parsed {
        Ok(segment) => segment,
        Err(TcpInputParseError::BadLength) => {
            return TcpInputAction::Reject { next: TcpInputNext::Drop, error: TcpError::Length };
        },
        Err(TcpInputParseError::WrongProtocol { .. }) => {
            return TcpInputAction::Reject { next: TcpInputNext::Drop, error: TcpError::Dispatch };
        },
        Err(TcpInputParseError::AddressesMissing) => {
            return TcpInputAction::Fail { error: TcpError::Length };
        },
    };
    let (route, waits) = session_or_listener_pending_input_entry(
        state,
        has_queue,
        segment.local,
        segment.remote,
        segment.flags,
        pending_epoch,
    );
    if let Some(route) = route {
        if let Some(worker) = handoff_worker {
            if route.owner.get() != worker.get() {
                return TcpInputAction::Handoff { route };
            }
        }
        return TcpInputAction::Session { route };
    }
    if waits {
        return TcpInputAction::Listener { next: TcpInputNext::Listen };
    }
    let listener = lookup_for_packet(snapshot, segment.local, segment.remote);
    let (next, error) = tcp_listener_input_entry(segment.flags);
    if let Some(error) = error {
        return TcpInputAction::Reject { next, error };
    }
    if listener.is_none() {
        return TcpInputAction::Reject {
            next: TcpInputNext::Punt,
            error: TcpError::ConnectionClosed,
        };
    }
    TcpInputAction::Listener { next }
}

/// What is recorded of a traced segment.
#[derive(Clone, Copy, Debug, PartialEq, Eq, Structural)]
pub struct TcpInputTrace {
    pub version: Option<IpVersion>,
    pub protocol: Option<u8>,
    pub source_port: Option<u16>,
    pub destination_port: Option<u16>,
    pub flags: u16,
    pub error: Option<u16>,
    pub next: u32,
}

/// What is recorded of a segment: its ports only where it was let through, and
/// nothing of a packet whose lengths are wrong.
pub open spec fn trace_of(
    parsed: Result<TcpInputSegment, TcpInputParseError>,
    rejected: Option<u16>,
    next: u32,
) -> TcpInputTrace {
    match parsed {
        Ok(segment) => TcpInputTrace {
            version: Some(segment.version),
            protocol: Some(segment.protocol),
            source_port: if rejected is None {
                Some(segment.remote.port)
            } else {
                None
            },
            destination_port: if rejected is None {
                Some(segment.local.port)
            } else {
                None
            },
            flags: segment.flags.spec_bits() as u16,
            error: rejected,
            next,
        },
        Err(TcpInputParseError::WrongProtocol { version, protocol }) => TcpInputTrace {
            version: Some(version),
            protocol: Some(protocol),
            source_port: None,
            destination_port: None,
            flags: 0,
            error: rejected,
            next,
        },
        Err(_) => TcpInputTrace {
            version: None,
            protocol: None,
            source_port: None,
            destination_port: None,
            flags: 0,
            error: rejected,
            next,
        },
    }
}

/// The bytes of an optional version.
pub open spec fn version_bytes(version: Option<IpVersion>) -> Seq<u8> {
    match version {
        None => seq![0u8],
        Some(IpVersion::V4) => seq![1u8, 4u8],
        Some(IpVersion::V6) => seq![1u8, 6u8],
    }
}

/// The bytes of an optional byte.
pub open spec fn byte_bytes(value: Option<u8>) -> Seq<u8> {
    match value {
        None => seq![0u8],
        Some(value) => seq![1u8, value],
    }
}

/// The bytes of an optional number.
pub open spec fn number_bytes(value: Option<u16>) -> Seq<u8> {
    match value {
        None => seq![0u8],
        Some(value) => seq![1u8] + bytes::be16(value),
    }
}

/// An optional version that starts at `at`, and where it ends.
#[verifier::opaque]
pub open spec fn version_at(content: Seq<u8>, at: int) -> Option<(Option<IpVersion>, int)> {
    if at >= content.len() {
        None
    } else if content[at] == 0 {
        Some((None, at + 1))
    } else if content[at] != 1 || at + 1 >= content.len() {
        None
    } else if content[at + 1] == 4 {
        Some((Some(IpVersion::V4), at + 2))
    } else if content[at + 1] == 6 {
        Some((Some(IpVersion::V6), at + 2))
    } else {
        None
    }
}

/// An optional byte that starts at `at`, and where it ends.
#[verifier::opaque]
pub open spec fn byte_at(content: Seq<u8>, at: int) -> Option<(Option<u8>, int)> {
    if at >= content.len() {
        None
    } else if content[at] == 0 {
        Some((None, at + 1))
    } else if content[at] != 1 || at + 1 >= content.len() {
        None
    } else {
        Some((Some(content[at + 1]), at + 2))
    }
}

/// An optional number that starts at `at`, and where it ends.
#[verifier::opaque]
pub open spec fn number_at(content: Seq<u8>, at: int) -> Option<(Option<u16>, int)> {
    if at >= content.len() {
        None
    } else if content[at] == 0 {
        Some((None, at + 1))
    } else if content[at] != 1 || at + 2 >= content.len() {
        None
    } else {
        Some((Some(bytes::read16(content[at + 1], content[at + 2])), at + 3))
    }
}

/// The trace that `content` spells, if it spells one and nothing more.
pub open spec fn trace_in(content: Seq<u8>) -> Option<TcpInputTrace> {
    match version_at(content, 0) {
        None => None,
        Some((version, a)) => match byte_at(content, a) {
            None => None,
            Some((protocol, b)) => match number_at(content, b) {
                None => None,
                Some((source_port, c)) => match number_at(content, c) {
                    None => None,
                    Some((destination_port, d)) => if d + 2 > content.len() {
                        None
                    } else {
                        match number_at(content, d + 2) {
                            None => None,
                            Some((error, e)) => if e + 4 != content.len() {
                                None
                            } else {
                                Some(
                                    TcpInputTrace {
                                        version,
                                        protocol,
                                        source_port,
                                        destination_port,
                                        flags: bytes::read16(content[d], content[d + 1]),
                                        error,
                                        next: reset::word_at(content, e),
                                    },
                                )
                            },
                        }
                    },
                },
            },
        },
    }
}

fn push_byte(out: &mut Vec<u8>, value: Option<u8>)
    ensures
        final(out)@ == old(out)@ + byte_bytes(value),
{
    match value {
        None => out.push(0),
        Some(value) => {
            out.push(1);
            out.push(value);
        },
    }
    proof {
        assert(out@ =~= old(out)@ + byte_bytes(value));
    }
}

fn push_number(out: &mut Vec<u8>, value: Option<u16>)
    ensures
        final(out)@ == old(out)@ + number_bytes(value),
{
    match value {
        None => out.push(0),
        Some(value) => {
            out.push(1);
            push_be16(out, value);
        },
    }
    proof {
        assert(out@ =~= old(out)@ + number_bytes(value));
    }
}

fn read_byte(content: &[u8], at: usize) -> (r: Option<(Option<u8>, usize)>)
    ensures
        match r {
            Some((value, end)) => byte_at(content@, at as int) == Some((value, end as int)) && end
                <= content@.len(),
            None => byte_at(content@, at as int) is None,
        },
{
    proof {
        reveal(byte_at);
    }
    let count: usize = content.len();
    if at >= count {
        return None;
    }
    if content[at] == 0 {
        return Some((None, at + 1));
    }
    if content[at] != 1 || count - at < 2 {
        return None;
    }
    Some((Some(content[at + 1]), at + 2))
}

fn read_number(content: &[u8], at: usize) -> (r: Option<(Option<u16>, usize)>)
    ensures
        match r {
            Some((value, end)) => number_at(content@, at as int) == Some((value, end as int))
                && end <= content@.len(),
            None => number_at(content@, at as int) is None,
        },
{
    proof {
        reveal(number_at);
    }
    let count: usize = content.len();
    if at >= count {
        return None;
    }
    if content[at] == 0 {
        return Some((None, at + 1));
    }
    if content[at] != 1 || count - at < 3 {
        return None;
    }
    Some((Some(be_u16(content, at + 1)), at + 3))
}

impl TcpInputTrace {
    /// The bytes that a trace is kept as.
    pub open spec fn spec_bytes(self) -> Seq<u8> {
        version_bytes(self.version) + byte_bytes(self.protocol) + number_bytes(self.source_port)
            + number_bytes(self.destination_port) + bytes::be16(self.flags) + number_bytes(
            self.error,
        ) + bytes::be32(self.next)
    }

    /// What is recorded of a segment that goes to the stage with the number
    /// `next`, and was rejected with the error number given if it was.
    pub fn new(
        parsed: Result<TcpInputSegment, TcpInputParseError>,
        rejected: Option<u16>,
        next: u32,
    ) -> (r: TcpInputTrace)
        ensures
            r == trace_of(parsed, rejected, next),
    {
        match parsed {
            Ok(segment) => {
                let passed: bool = rejected.is_none();
                TcpInputTrace {
                    version: Some(segment.version),
                    protocol: Some(segment.protocol),
                    source_port: if passed {
                        Some(segment.remote.port)
                    } else {
                        None
                    },
                    destination_port: if passed {
                        Some(segment.local.port)
                    } else {
                        None
                    },
                    flags: segment.flags.bits() as u16,
                    error: rejected,
                    next,
                }
            },
            Err(TcpInputParseError::WrongProtocol { version, protocol }) => TcpInputTrace {
                version: Some(version),
                protocol: Some(protocol),
                source_port: None,
                destination_port: None,
                flags: 0,
                error: rejected,
                next,
            },
            Err(_) => TcpInputTrace {
                version: None,
                protocol: None,
                source_port: None,
                destination_port: None,
                flags: 0,
                error: rejected,
                next,
            },
        }
    }

    /// Appends the bytes that the trace is kept as.
    pub fn encode_trace(&self, out: &mut Vec<u8>)
        ensures
            final(out)@ == old(out)@ + self.spec_bytes(),
    {
        let version: Option<u8> = match self.version {
            None => None,
            Some(IpVersion::V4) => Some(4),
            Some(IpVersion::V6) => Some(6),
        };
        push_byte(out, version);
        assert(byte_bytes(version) =~= version_bytes(self.version));
        push_byte(out, self.protocol);
        push_number(out, self.source_port);
        push_number(out, self.destination_port);
        push_be16(out, self.flags);
        push_number(out, self.error);
        push_be32(out, self.next);
        proof {
            assert(out@ =~= old(out)@ + self.spec_bytes());
        }
    }

    /// The trace that the bytes spell, if they spell one and nothing more.
    pub fn decode(content: &[u8]) -> (r: Option<TcpInputTrace>)
        ensures
            r == trace_in(content@),
    {
        proof {
            reveal(version_at);
            reveal(byte_at);
        }
        let Some((version_byte, a)) = read_byte(content, 0) else {
            return None;
        };
        let version = match version_byte {
            None => None,
            Some(number) => {
                if number == 4 {
                    Some(IpVersion::V4)
                } else if number == 6 {
                    Some(IpVersion::V6)
                } else {
                    return None;
                }
            },
        };
        let Some((protocol, b)) = read_byte(content, a) else {
            return None;
        };
        let Some((source_port, c)) = read_number(content, b) else {
            return None;
        };
        let Some((destination_port, d)) = read_number(content, c) else {
            return None;
        };
        if content.len() - d < 2 {
            return None;
        }
        let flags: u16 = be_u16(content, d);
        let Some((error, e)) = read_number(content, d + 2) else {
            return None;
        };
        if content.len() - e != 4 {
            return None;
        }
        let next: u32 = be_u32(content, e);
        Some(
            TcpInputTrace {
                version,
                protocol,
                source_port,
                destination_port,
                flags,
                error,
                next,
            },
        )
    }
}

/// A reset that belongs to no connection is never answered with a reset.
pub proof fn resets_are_not_reset(
    state: TcpLookupState,
    snapshot: TcpLookupSnapshot,
    has_queue: bool,
    handoff_worker: Option<DataWorkerId>,
    segment: TcpInputSegment,
    pending_epoch: u32,
)
    requires
        segment.flags.rst,
        state.route_of(segment.local, segment.remote) is None,
    ensures
        match input_action(
            state,
            snapshot,
            has_queue,
            handoff_worker,
            Ok(segment),
            pending_epoch,
        ) {
            TcpInputAction::Listener { next } => next == TcpInputNext::Drop,
            TcpInputAction::Reject { next, .. } => next == TcpInputNext::Punt,
            _ => false,
        },
{
}

/// A segment of a known connection is handled by the worker that owns the
/// connection, wherever it came in.
pub proof fn owner_gets_the_segment(
    state: TcpLookupState,
    snapshot: TcpLookupSnapshot,
    worker: DataWorkerId,
    segment: TcpInputSegment,
    pending_epoch: u32,
)
    requires
        state.route_of(segment.local, segment.remote) is Some,
    ensures
        ({
            let route = state.route_of(segment.local, segment.remote)->0;
            input_action(state, snapshot, true, Some(worker), Ok(segment), pending_epoch) == (
            if route.owner == worker {
                TcpInputAction::Session { route }
            } else {
                TcpInputAction::Handoff { route }
            })
        }),
{
}

/// A listener is asked to open a connection only for a plain SYN, or for an
/// acknowledgment of a handshake that it answered before.
pub proof fn listeners_get_syns_and_awaited_acks(
    state: TcpLookupState,
    snapshot: TcpLookupSnapshot,
    has_queue: bool,
    handoff_worker: Option<DataWorkerId>,
    segment: TcpInputSegment,
    pending_epoch: u32,
)
    requires
        input_action(state, snapshot, has_queue, handoff_worker, Ok(segment), pending_epoch) == (
        TcpInputAction::Listener { next: TcpInputNext::Listen }),
    ensures
        segment.flags == syn_alone() && listener_for(snapshot, segment.local, segment.remote)
            is Some || may_complete(segment.flags) && listener_pending::pruned(
            state.listener_pending@,
            pending_epoch,
        ).contains_key(tuple::key_of(segment.local, segment.remote)),
{
}

proof fn lemma_version_read(version: Option<IpVersion>, rest: Seq<u8>)
    ensures
        version_at(version_bytes(version) + rest, 0) == Some(
            (version, version_bytes(version).len() as int),
        ),
{
    reveal(version_at);
}

proof fn lemma_byte_read(lead: Seq<u8>, value: Option<u8>, rest: Seq<u8>)
    ensures
        byte_at(lead + byte_bytes(value) + rest, lead.len() as int) == Some(
            (value, (lead + byte_bytes(value)).len() as int),
        ),
{
    reveal(byte_at);
}

proof fn lemma_number_read(lead: Seq<u8>, value: Option<u16>, rest: Seq<u8>)
    ensures
        number_at(lead + number_bytes(value) + rest, lead.len() as int) == Some(
            (value, (lead + number_bytes(value)).len() as int),
        ),
{
    reveal(number_at);
    if let Some(number) = value {
        bytes::be16_round_trip(number);
        let all = lead + number_bytes(value) + rest;
        let n = lead.len() as int;
        assert(all[n] == 1 && all[n + 1] == bytes::be16(number)[0] && all[n + 2] == bytes::be16(
            number,
        )[1]);
    }
}

proof fn lemma_flags_read(lead: Seq<u8>, flags: u16, rest: Seq<u8>)
    ensures
        ({
            let all = lead + bytes::be16(flags) + rest;
            bytes::read16(all[lead.len() as int], all[lead.len() as int + 1])
        }) == flags,
{
    bytes::be16_round_trip(flags);
    let all = lead + bytes::be16(flags) + rest;
    let n = lead.len() as int;
    assert(all[n] == bytes::be16(flags)[0] && all[n + 1] == bytes::be16(flags)[1]);
}

proof fn lemma_next_read(lead: Seq<u8>, next: u32)
    ensures
        reset::word_at(lead + bytes::be32(next), lead.len() as int) == next,
{
    bytes::be32_round_trip(next);
    let all = lead + bytes::be32(next);
    let n = lead.len() as int;
    assert(all[n] == bytes::be32(next)[0] && all[n + 1] == bytes::be32(next)[1] && all[n + 2]
        == bytes::be32(next)[2] && all[n + 3] == bytes::be32(next)[3]);
}

/// Seven parts, grouped so that each in turn stands between what comes before
/// and what comes after.
proof fn lemma_regrouped(
    a: Seq<u8>,
    b: Seq<u8>,
    c: Seq<u8>,
    d: Seq<u8>,
    f: Seq<u8>,
    e: Seq<u8>,
    n: Seq<u8>,
)
    ensures
        ({
            let all = a + b + c + d + f + e + n;
            &&& all == a + (b + (c + (d + (f + (e + n)))))
            &&& all == a + b + (c + (d + (f + (e + n))))
            &&& all == a + b + c + (d + (f + (e + n)))
            &&& all == a + b + c + d + (f + (e + n))
            &&& all == a + b + c + d + f + (e + n)
        }),
{
    let all = a + b + c + d + f + e + n;
    assert(all =~= a + (b + (c + (d + (f + (e + n))))));
    assert(all =~= a + b + (c + (d + (f + (e + n)))));
    assert(all =~= a + b + c + (d + (f + (e + n))));
    assert(all =~= a + b + c + d + (f + (e + n)));
    assert(all =~= a + b + c + d + f + (e + n));
}

/// A trace is read back as it was kept.
pub proof fn trace_round_trip(trace: TcpInputTrace)
    ensures
        trace_in(trace.spec_bytes()) == Some(trace),
{
    let a = version_bytes(trace.version);
    let b = byte_bytes(trace.protocol);
    let c = number_bytes(trace.source_port);
    let d = number_bytes(trace.destination_port);
    let f = bytes::be16(trace.flags);
    let e = number_bytes(trace.error);
    let n = bytes::be32(trace.next);
    lemma_regrouped(a, b, c, d, f, e, n);
    lemma_version_read(trace.version, b + (c + (d + (f + (e + n)))));
    lemma_byte_read(a, trace.protocol, c + (d + (f + (e + n))));
    lemma_number_read(a + b, trace.source_port, d + (f + (e + n)));
    lemma_number_read(a + b + c, trace.destination_port, f + (e + n));
    lemma_flags_read(a + b + c + d, trace.flags, e + n);
    lemma_number_read(a + b + c + d + f, trace.error, n);
    lemma_next_read(a + b + c + d + f + e, trace.next);
    assert(f.len() == 2 && n.len() == 4);
}

} // verus!
