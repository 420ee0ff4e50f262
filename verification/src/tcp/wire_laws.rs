//! What stands where in a packet, byte by byte, and what a packet that comes in leads
//! to.
use vstd::prelude::*;

use crate::bytes;
use crate::checksum;
use crate::tcp::control_plane;
use crate::tcp::cursor;
use crate::tcp::cursor::{PacketCursor, TcpControlPacketParseError};
use crate::tcp::errors::TcpError;
use crate::tcp::header;
use crate::tcp::input;
use crate::tcp::input::{
    IpSummary, IpVersion, TcpInputAction, TcpInputParseError, TcpInputSegment,
};
use crate::tcp::listeners::TcpLookupSnapshot;
use crate::tcp::lookup::TcpLookupState;
use crate::tcp::reset;
use crate::tcp::reset::{IpRoute, TcpReset};
use crate::tcp::tuple;
use crate::tcp::types::{DataWorkerId, IpAddress, TcpPacket, TcpSegmentFlags};
use crate::tcp::TcpInputNext;

verus! {

/// The number that bytes spell, the highest first.
pub open spec fn spelled(content: Seq<u8>) -> int
    decreases content.len(),
{
    if content.len() == 0 {
        0
    } else {
        256 * spelled(content.drop_last()) + content.last()
    }
}

proof fn lemma_spelled_two(content: Seq<u8>)
    requires
        content.len() == 2,
    ensures
        spelled(content) == 256 * content[0] + content[1],
{
    reveal_with_fuel(spelled, 3);
}

proof fn lemma_spelled_four(content: Seq<u8>)
    requires
        content.len() == 4,
    ensures
        spelled(content) == 0x100_0000 * content[0] + 0x1_0000 * content[1] + 0x100 * content[2]
            + content[3],
{
    reveal_with_fuel(spelled, 5);
}

proof fn lemma_spelled_join(a: Seq<u8>, b: Seq<u8>, weight: int)
    requires
        weight == vstd::arithmetic::power::pow(256, b.len()),
    ensures
        spelled(a + b) == spelled(a) * weight + spelled(b),
    decreases b.len(),
{
    reveal(vstd::arithmetic::power::pow);
    if b.len() == 0 {
        assert(a + b =~= a);
    } else {
        assert((a + b).drop_last() =~= a + b.drop_last());
        let less = vstd::arithmetic::power::pow(256, (b.len() - 1) as nat);
        lemma_spelled_join(a, b.drop_last(), less);
        assert(256 * (spelled(a) * less) == spelled(a) * (256 * less)) by (nonlinear_arith);
    }
}

proof fn lemma_spelled_eight(a: Seq<u8>, b: Seq<u8>)
    requires
        a.len() == 4,
        b.len() == 4,
    ensures
        spelled(a + b) == spelled(a) * 0x1_0000_0000 + spelled(b),
{
    reveal_with_fuel(vstd::arithmetic::power::pow, 5);
    lemma_spelled_join(a, b, 0x1_0000_0000);
}

proof fn lemma_spelled_sixteen(a: Seq<u8>, b: Seq<u8>)
    requires
        a.len() == 8,
        b.len() == 8,
    ensures
        spelled(a + b) == spelled(a) * 0x1_0000_0000_0000_0000 + spelled(b),
{
    reveal_with_fuel(vstd::arithmetic::power::pow, 9);
    lemma_spelled_join(a, b, 0x1_0000_0000_0000_0000);
}

#[verifier::spinoff_prover]
proof fn lemma_wide(wide: u128)
    ensures
        bytes::be128(wide).len() == 16,
        spelled(bytes::be128(wide)) == wide,
{
    let high = (wide / 0x1_0000_0000_0000_0000) as u64;
    let low = (wide % 0x1_0000_0000_0000_0000) as u64;
    lemma_long(high);
    lemma_long(low);
    lemma_spelled_sixteen(bytes::be64(high), bytes::be64(low));
}

#[verifier::spinoff_prover]
proof fn lemma_short_and_word(short: u16, word: u32)
    ensures
        bytes::be16(short).len() == 2,
        spelled(bytes::be16(short)) == short,
        bytes::be32(word).len() == 4,
        spelled(bytes::be32(word)) == word,
{
    lemma_spelled_two(bytes::be16(short));
    lemma_spelled_four(bytes::be32(word));
}

/// Numbers are written with their highest byte first.
#[verifier::spinoff_prover]
pub proof fn numbers_are_written_high_byte_first(short: u16, word: u32, long: u64, wide: u128)
    ensures
        bytes::be16(short).len() == 2,
        spelled(bytes::be16(short)) == short,
        bytes::be32(word).len() == 4,
        spelled(bytes::be32(word)) == word,
        bytes::be64(long).len() == 8,
        spelled(bytes::be64(long)) == long,
        bytes::be128(wide).len() == 16,
        spelled(bytes::be128(wide)) == wide,
{
    lemma_short_and_word(short, word);
    lemma_long(long);
    lemma_wide(wide);
}

#[verifier::spinoff_prover]
proof fn lemma_long(long: u64)
    ensures
        bytes::be64(long).len() == 8,
        spelled(bytes::be64(long)) == long,
{
    let high = (long / 0x1_0000_0000) as u32;
    let low = (long % 0x1_0000_0000) as u32;
    lemma_short_and_word(0, high);
    lemma_short_and_word(0, low);
    lemma_spelled_eight(bytes::be32(high), bytes::be32(low));
}

/// Numbers are read with their highest byte first.
#[verifier::spinoff_prover]
pub proof fn numbers_are_read_high_byte_first(content: Seq<u8>, at: int)
    requires
        0 <= at,
        at + 4 <= content.len(),
    ensures
        bytes::read16(content[at], content[at + 1]) == spelled(content.subrange(at, at + 2)),
        bytes::read32(content[at], content[at + 1], content[at + 2], content[at + 3]) == spelled(
            content.subrange(at, at + 4),
        ),
        at + 16 <= content.len() ==> bytes::read128(content, at) == spelled(
            content.subrange(at, at + 16),
        ),
{
    lemma_spelled_two(content.subrange(at, at + 2));
    lemma_spelled_four(content.subrange(at, at + 4));
    if at + 16 <= content.len() {
        reveal(bytes::read128);
        let a = content.subrange(at, at + 4);
        let b = content.subrange(at + 4, at + 8);
        let c = content.subrange(at + 8, at + 12);
        let d = content.subrange(at + 12, at + 16);
        lemma_spelled_four(b);
        lemma_spelled_four(c);
        lemma_spelled_four(d);
        lemma_spelled_eight(a, b);
        lemma_spelled_eight(c, d);
        lemma_spelled_sixteen(a + b, c + d);
        assert(content.subrange(at, at + 16) =~= (a + b) + (c + d));
    }
}

/// The bits of a byte, from the lowest on.
proof fn lemma_bits(byte: u8)
    ensures
        (byte & 0x01 != 0) == (byte % 2 == 1),
        (byte & 0x02 != 0) == (byte / 2 % 2 == 1),
        (byte & 0x04 != 0) == (byte / 4 % 2 == 1),
        (byte & 0x08 != 0) == (byte / 8 % 2 == 1),
        (byte & 0x10 != 0) == (byte / 16 % 2 == 1),
        (byte & 0x20 != 0) == (byte / 32 % 2 == 1),
        (byte & 0x40 != 0) == (byte / 64 % 2 == 1),
        (byte & 0x80 != 0) == (byte / 128 % 2 == 1),
{
    assert((byte & 0x01 != 0) == (byte % 2 == 1) && (byte & 0x02 != 0) == (byte / 2 % 2 == 1) && (
    byte & 0x04 != 0) == (byte / 4 % 2 == 1) && (byte & 0x08 != 0) == (byte / 8 % 2 == 1) && (byte
        & 0x10 != 0) == (byte / 16 % 2 == 1) && (byte & 0x20 != 0) == (byte / 32 % 2 == 1) && (byte
        & 0x40 != 0) == (byte / 64 % 2 == 1) && (byte & 0x80 != 0) == (byte / 128 % 2 == 1))
        by (bit_vector);
}

/// What stands where in a segment header: the ports, the two numbers, the length in
/// words and the flags from FIN up, the window.
pub proof fn header_fields_stand_in_place(segment: Seq<u8>)
    ensures
        (header::header_of(segment) is Some) == (segment.len() >= 20 && segment[12] >= 80
            && segment[12] as int / 16 * 4 <= segment.len()),
        header::header_of(segment) matches Some(tcp) ==> {
            &&& tcp.source_port == spelled(segment.subrange(0, 2))
            &&& tcp.destination_port == spelled(segment.subrange(2, 4))
            &&& tcp.sequence_number == spelled(segment.subrange(4, 8))
            &&& tcp.acknowledgment_number == spelled(segment.subrange(8, 12))
            &&& tcp.header_len == segment[12] as int / 16 * 4
            &&& tcp.flags.ns == (segment[12] % 2 == 1)
            &&& tcp.flags.fin == (segment[13] % 2 == 1)
            &&& tcp.flags.syn == (segment[13] / 2 % 2 == 1)
            &&& tcp.flags.rst == (segment[13] / 4 % 2 == 1)
            &&& tcp.flags.psh == (segment[13] / 8 % 2 == 1)
            &&& tcp.flags.ack == (segment[13] / 16 % 2 == 1)
            &&& tcp.flags.urg == (segment[13] / 32 % 2 == 1)
            &&& tcp.flags.ece == (segment[13] / 64 % 2 == 1)
            &&& tcp.flags.cwr == (segment[13] / 128 % 2 == 1)
            &&& tcp.window == spelled(segment.subrange(14, 16))
        },
{
    if segment.len() >= 20 {
        numbers_are_read_high_byte_first(segment, 0);
        numbers_are_read_high_byte_first(segment, 2);
        numbers_are_read_high_byte_first(segment, 4);
        numbers_are_read_high_byte_first(segment, 8);
        numbers_are_read_high_byte_first(segment, 14);
        lemma_bits(segment[13]);
    }
}

/// Flags that are written into a header's byte are read from it again.
pub proof fn flags_are_read_back(flags: TcpSegmentFlags)
    ensures
        0 <= flags.spec_byte() < 256,
        TcpSegmentFlags::spec_from_byte(flags.spec_byte() as u8, flags.ns) == flags,
        (flags.spec_byte() % 2 == 1) == flags.fin,
        (flags.spec_byte() / 2 % 2 == 1) == flags.syn,
        (flags.spec_byte() / 4 % 2 == 1) == flags.rst,
        (flags.spec_byte() / 16 % 2 == 1) == flags.ack,
{
    lemma_bits(flags.spec_byte() as u8);
}

/// Where the parts of a packet lie: the network header is as long as it says, 40
/// bytes for IPv6; the segment header follows, and is as long as it says; the packet
/// ends where it says.
pub proof fn cursor_follows_the_lengths(packet: Seq<u8>)
    ensures
        cursor::control_cursor(packet) matches Ok(found) ==> {
            let version = packet[0] as int / 16;
            &&& version == 4 || version == 6
            &&& version == 4 ==> found.network_header_len == packet[0] as int % 16 * 4
                && found.packet_len == spelled(packet.subrange(2, 4))
            &&& version == 6 ==> found.network_header_len == 40 && found.packet_len == 40
                + spelled(packet.subrange(4, 6))
            &&& found.network_header_offset == 0
            &&& found.transport_header_offset == found.network_header_len
            &&& found.transport_header_len == packet[found.transport_header_offset + 12] as int
                / 16 * 4
            &&& found.transport_payload_offset == found.transport_header_offset
                + found.transport_header_len
        },
        packet.len() == 0 ==> cursor::control_cursor(packet) is Err,
        packet.len() > 0 && packet[0] as int / 16 != 4 && packet[0] as int / 16 != 6
            ==> cursor::control_cursor(packet) is Err,
{
    if packet.len() >= 40 {
        numbers_are_read_high_byte_first(packet, 2);
        numbers_are_read_high_byte_first(packet, 4);
    }
    assert(0 <= packet[0] as int % 16 * 4 <= 60);
}

/// A checksum makes the words of what it covers add up to a multiple of 65535.
pub proof fn checksum_completes_the_sum(content: Seq<u8>, high: u8, low: u8)
    ensures
        content.len() > 0 ==> (checksum::word_sum(content) + checksum::checksum_of(content)) % 0xffff
            == 0,
        checksum::word_sum(seq![high, low]) == 256 * high + low,
        checksum::word_sum(seq![high]) == 256 * high,
        checksum::word_sum(Seq::<u8>::empty()) == 0,
{
    reveal_with_fuel(checksum::word_sum, 3);
    checksum::lemma_word_sum_nonnegative(content);
    let pair = seq![high, low];
    assert(pair.skip(2) =~= Seq::<u8>::empty());
    let sum = checksum::word_sum(content);
    assert(checksum::checksum_of(content) == 0xffff - checksum::carried(sum));
}

/// A segment is read with its receiver as the local side and its sender as the
/// remote one.
pub proof fn segment_is_read_from_both_headers(
    current: Seq<u8>,
    ip: IpSummary,
    cursor: PacketCursor,
)
    requires
        ip.protocol == 6,
        ip.valid,
        cursor.transport_header_offset <= cursor.packet_len,
        cursor.transport_header_offset <= ip.packet_len,
        ip.packet_len <= current.len(),
        ip.version == IpVersion::V4 ==> 20 <= ip.packet_len,
        ip.version == IpVersion::V6 ==> 40 <= ip.packet_len,
        header::header_of(
            current.subrange(cursor.transport_header_offset as int, ip.packet_len as int),
        ) is Some,
    ensures
        ({
            let tcp = header::header_of(
                current.subrange(cursor.transport_header_offset as int, ip.packet_len as int),
            )->0;
            input::input_segment(current, Some(ip), cursor) matches Ok(segment) && {
                &&& segment.version == ip.version
                &&& segment.protocol == 6
                &&& segment.remote.port == tcp.source_port
                &&& segment.local.port == tcp.destination_port
                &&& segment.flags.fin == tcp.flags.fin && segment.flags.syn == tcp.flags.syn
                &&& segment.flags.rst == tcp.flags.rst && segment.flags.ack == tcp.flags.ack
                &&& ip.version == IpVersion::V4 ==> segment.remote.ip == IpAddress::V4(
                    spelled(current.subrange(12, 16)) as u32,
                ) && segment.local.ip == IpAddress::V4(spelled(current.subrange(16, 20)) as u32)
                &&& ip.version == IpVersion::V6 ==> segment.remote.ip == IpAddress::V6(
                    spelled(current.subrange(8, 24)) as u128,
                ) && segment.local.ip == IpAddress::V6(spelled(current.subrange(24, 40)) as u128)
            }
        }),
{
    match ip.version {
        IpVersion::V4 => {
            numbers_are_read_high_byte_first(current, 12);
            numbers_are_read_high_byte_first(current, 16);
        },
        IpVersion::V6 => {
            numbers_are_read_high_byte_first(current, 8);
            numbers_are_read_high_byte_first(current, 24);
        },
    }
}

/// What cannot be read, and what becomes of it.
pub proof fn unreadable_packets_are_rejected(
    state: TcpLookupState,
    snapshot: TcpLookupSnapshot,
    has_queue: bool,
    handoff_worker: Option<DataWorkerId>,
    current: Seq<u8>,
    ip: Option<IpSummary>,
    cursor: PacketCursor,
    pending_epoch: u32,
)
    ensures
        ({
            let parsed = input::input_segment(current, ip, cursor);
            let action = input::input_action(
                state,
                snapshot,
                has_queue,
                handoff_worker,
                parsed,
                pending_epoch,
            );
            &&& ip is None ==> parsed == Err::<TcpInputSegment, TcpInputParseError>(
                TcpInputParseError::BadLength,
            )
            &&& ip matches Some(ip) ==> {
                &&& ip.protocol != 6 ==> action == (TcpInputAction::Reject {
                    next: TcpInputNext::Drop,
                    error: TcpError::Dispatch,
                })
                &&& ip.protocol == 6 && !ip.valid ==> action == (TcpInputAction::Reject {
                    next: TcpInputNext::Drop,
                    error: TcpError::Length,
                })
                &&& ip.protocol == 6 && ip.valid && cursor.transport_header_offset
                    > cursor.packet_len ==> action == (TcpInputAction::Reject {
                    next: TcpInputNext::Drop,
                    error: TcpError::Length,
                })
                &&& ip.protocol == 6 && ip.valid && cursor.transport_header_offset
                    <= cursor.packet_len && current.len() < 20 ==> action == (
                TcpInputAction::Fail { error: TcpError::Length })
            }
            &&& ip is None ==> action == (TcpInputAction::Reject {
                next: TcpInputNext::Drop,
                error: TcpError::Length,
            })
        }),
{
}

/// The segment belongs to no connection that this worker could find.
pub open spec fn unconnected(
    state: TcpLookupState,
    has_queue: bool,
    segment: TcpInputSegment,
) -> bool {
    !has_queue || state.route_of(segment.local, segment.remote) is None
}

/// A SYN alone that belongs to no connection goes to the listener on its address, or
/// where there is none, on to whoever else may want it.
pub proof fn plain_syn_goes_to_its_listener(
    state: TcpLookupState,
    snapshot: TcpLookupSnapshot,
    has_queue: bool,
    handoff_worker: Option<DataWorkerId>,
    segment: TcpInputSegment,
    pending_epoch: u32,
)
    requires
        unconnected(state, has_queue, segment),
        segment.flags.syn && !segment.flags.ack && !segment.flags.rst && !segment.flags.fin,
        (segment.local.ip is V4) == (segment.remote.ip is V4),
    ensures
        input::input_action(
            state,
            snapshot,
            has_queue,
            handoff_worker,
            Ok(segment),
            pending_epoch,
        ) == (if control_plane::listener_at(snapshot, segment.local) is Some {
            TcpInputAction::Listener { next: TcpInputNext::Listen }
        } else {
            TcpInputAction::Reject { next: TcpInputNext::Punt, error: TcpError::ConnectionClosed }
        }),
{
}

/// The acknowledgment that a handshake waits for goes to the listener.
pub proof fn awaited_ack_goes_to_the_listener(
    state: TcpLookupState,
    snapshot: TcpLookupSnapshot,
    handoff_worker: Option<DataWorkerId>,
    segment: TcpInputSegment,
    pending_epoch: u32,
)
    requires
        state.route_of(segment.local, segment.remote) is None,
        segment.flags.ack && !segment.flags.rst,
        state.listener_pending@.contains_key(tuple::key_of(segment.local, segment.remote)),
        ({
            let entry = state.listener_pending@[tuple::key_of(segment.local, segment.remote)];
            entry.created_epoch <= pending_epoch <= entry.created_epoch + 1
        }),
    ensures
        input::input_action(
            state,
            snapshot,
            true,
            handoff_worker,
            Ok(segment),
            pending_epoch,
        ) == (TcpInputAction::Listener { next: TcpInputNext::Listen }),
{
}

/// Any other segment that belongs to nobody is answered with a reset: as a wrong
/// acknowledgment where it acknowledges or carries a SYN, else as one for a closed
/// connection.
pub proof fn stray_segment_is_reset(
    state: TcpLookupState,
    snapshot: TcpLookupSnapshot,
    has_queue: bool,
    handoff_worker: Option<DataWorkerId>,
    segment: TcpInputSegment,
    pending_epoch: u32,
)
    requires
        unconnected(state, has_queue, segment),
        !segment.flags.rst,
        !state.listener_pending@.contains_key(tuple::key_of(segment.local, segment.remote)),
        segment.flags.ack || segment.flags.fin || !segment.flags.syn,
    ensures
        input::input_action(
            state,
            snapshot,
            has_queue,
            handoff_worker,
            Ok(segment),
            pending_epoch,
        ) == (TcpInputAction::Reject {
            next: TcpInputNext::Reset,
            error: if segment.flags.ack || segment.flags.syn {
                TcpError::AckInvalid
            } else {
                TcpError::ConnectionClosed
            },
        }),
{
}

/// Without another worker to hand it to, a connection's segment stays where it is.
pub proof fn lone_worker_keeps_the_segment(
    state: TcpLookupState,
    snapshot: TcpLookupSnapshot,
    segment: TcpInputSegment,
    pending_epoch: u32,
)
    requires
        state.route_of(segment.local, segment.remote) is Some,
    ensures
        input::input_action(state, snapshot, true, None, Ok(segment), pending_epoch) == (
        TcpInputAction::Session { route: state.route_of(segment.local, segment.remote)->0 }),
{
}

/// A trace tells the sender's port as its source and the receiver's as its
/// destination, unless the segment was rejected; the flags as in a header.
pub proof fn trace_tells_the_segment(
    segment: TcpInputSegment,
    rejected: Option<u16>,
    next: u32,
    version: IpVersion,
    protocol: u8,
)
    ensures
        ({
            let trace = input::trace_of(Ok(segment), rejected, next);
            &&& trace.version == Some(segment.version)
            &&& trace.protocol == Some(segment.protocol)
            &&& trace.error == rejected
            &&& trace.next == next
            &&& rejected is None ==> trace.source_port == Some(segment.remote.port)
                && trace.destination_port == Some(segment.local.port)
            &&& rejected is Some ==> trace.source_port is None && trace.destination_port is None
            &&& (trace.flags % 2 == 1) == segment.flags.fin
            &&& (trace.flags / 2 % 2 == 1) == segment.flags.syn
            &&& (trace.flags / 4 % 2 == 1) == segment.flags.rst
            &&& (trace.flags / 16 % 2 == 1) == segment.flags.ack
            &&& trace.flags < 32 && trace.flags / 8 % 2 == 0
        }),
        ({
            let trace = input::trace_of(
                Err(TcpInputParseError::WrongProtocol { version, protocol }),
                rejected,
                next,
            );
            trace.version == Some(version) && trace.protocol == Some(protocol)
                && trace.source_port is None && trace.destination_port is None && trace.error
                == rejected && trace.next == next
        }),
{
}

/// The reset for a segment goes back the way it came. It stands where the segment's
/// acknowledgment says, or where it has none, acknowledges all that the segment takes
/// in sequence space.
pub proof fn reset_answers_the_segment(packet: Seq<u8>, cursor: PacketCursor)
    requires
        reset::reset_for(packet, cursor) is Some,
    ensures
        ({
            let answer = reset::reset_for(packet, cursor)->0;
            let asked = reset::header_under(packet, cursor)->0;
            let payload = reset::available_len(packet, cursor) - cursor.transport_payload_offset;
            let taken = payload + (if asked.flags.syn {
                1int
            } else {
                0
            }) + (if asked.flags.fin {
                1int
            } else {
                0
            });
            &&& reset::header_under(packet, cursor) is Some
            &&& !asked.flags.rst
            &&& answer.source_port == asked.destination_port
            &&& answer.destination_port == asked.source_port
            &&& asked.flags.ack ==> answer.sequence == asked.acknowledgment_number
                && answer.acknowledgment == 0 && answer.flags == 4
            &&& !asked.flags.ack ==> answer.sequence == 0 && answer.acknowledgment == (
            asked.sequence_number + taken) % 0x1_0000_0000 && answer.flags == 20
        }),
{
}

/// The addresses of a reset are those of the segment, exchanged.
pub proof fn reset_goes_back(packet: Seq<u8>, cursor: PacketCursor)
    requires
        reset::reset_for(packet, cursor) is Some,
    ensures
        ({
            let offset = cursor.network_header_offset as int;
            match reset::reset_for(packet, cursor)->0.route {
                IpRoute::V4 { source, destination } => {
                    &&& packet[offset] as int / 16 == 4
                    &&& destination == spelled(packet.subrange(offset + 12, offset + 16))
                    &&& source == spelled(packet.subrange(offset + 16, offset + 20))
                },
                IpRoute::V6 { source, destination } => {
                    &&& packet[offset] as int / 16 == 6
                    &&& destination == spelled(packet.subrange(offset + 8, offset + 24))
                    &&& source == spelled(packet.subrange(offset + 24, offset + 40))
                },
            }
        }),
{
    let offset = cursor.network_header_offset as int;
    match reset::reset_for(packet, cursor)->0.route {
        IpRoute::V4 { .. } => {
            numbers_are_read_high_byte_first(packet, offset + 12);
            numbers_are_read_high_byte_first(packet, offset + 16);
        },
        IpRoute::V6 { .. } => {
            numbers_are_read_high_byte_first(packet, offset + 8);
            numbers_are_read_high_byte_first(packet, offset + 24);
        },
    }
}

/// A reset goes out with 64 hops, as TCP, and as long as it is.
pub proof fn reset_network_header_is_sound(route: IpRoute, dont_fragment: bool)
    ensures
        ({
            let head = route.network_header(dont_fragment);
            match route {
                IpRoute::V4 { .. } => {
                    &&& head.len() == 20
                    &&& head[0] == 0x45
                    &&& head[2] == 0 && head[3] == 40
                    &&& head[6] == (if dont_fragment {
                        0x40u8
                    } else {
                        0u8
                    })
                    &&& head[8] == 64 && head[9] == 6
                },
                IpRoute::V6 { .. } => {
                    &&& head.len() == 40
                    &&& head[0] == 0x60
                    &&& head[4] == 0 && head[5] == 20
                    &&& head[6] == 6 && head[7] == 64
                },
            }
        }),
{
}

/// The network header of a reset names both ends in their places.
pub proof fn reset_network_header_names_both_ends(route: IpRoute, dont_fragment: bool)
    ensures
        ({
            let head = route.network_header(dont_fragment);
            match route {
                IpRoute::V4 { source, destination } => {
                    &&& spelled(head.subrange(12, 16)) == source
                    &&& spelled(head.subrange(16, 20)) == destination
                },
                IpRoute::V6 { source, destination } => {
                    &&& spelled(head.subrange(8, 24)) == source
                    &&& spelled(head.subrange(24, 40)) == destination
                },
            }
        }),
{
    let head = route.network_header(dont_fragment);
    match route {
        IpRoute::V4 { source, destination } => {
            numbers_are_written_high_byte_first(0, source, 0, 0);
            numbers_are_written_high_byte_first(0, destination, 0, 0);
            assert(head.subrange(12, 16) =~= bytes::be32(source));
            assert(head.subrange(16, 20) =~= bytes::be32(destination));
        },
        IpRoute::V6 { source, destination } => {
            numbers_are_written_high_byte_first(0, 0, 0, source);
            numbers_are_written_high_byte_first(0, 0, 0, destination);
            assert(head.subrange(8, 24) =~= bytes::be128(source));
            assert(head.subrange(24, 40) =~= bytes::be128(destination));
        },
    }
}

/// The checksum of a reset covers both addresses, the protocol number and the length
/// of the segment.
pub proof fn reset_checksum_covers_the_ends(route: IpRoute)
    ensures
        ({
            let covered = route.pseudo_header();
            match route {
                IpRoute::V4 { source, destination } => {
                    &&& covered.len() == 12
                    &&& spelled(covered.subrange(0, 4)) == source
                    &&& spelled(covered.subrange(4, 8)) == destination
                    &&& covered[8] == 0 && covered[9] == 6
                    &&& spelled(covered.subrange(10, 12)) == 20
                },
                IpRoute::V6 { source, destination } => {
                    &&& covered.len() == 40
                    &&& spelled(covered.subrange(0, 16)) == source
                    &&& spelled(covered.subrange(16, 32)) == destination
                    &&& spelled(covered.subrange(32, 36)) == 20
                    &&& covered[36] == 0 && covered[37] == 0 && covered[38] == 0
                    &&& covered[39] == 6
                },
            }
        }),
{
    let covered = route.pseudo_header();
    match route {
        IpRoute::V4 { source, destination } => {
            numbers_are_written_high_byte_first(20, source, 0, 0);
            numbers_are_written_high_byte_first(20, destination, 0, 0);
            assert(covered.subrange(0, 4) =~= bytes::be32(source));
            assert(covered.subrange(4, 8) =~= bytes::be32(destination));
            assert(covered.subrange(10, 12) =~= bytes::be16(20));
        },
        IpRoute::V6 { source, destination } => {
            numbers_are_written_high_byte_first(0, 20, 0, source);
            numbers_are_written_high_byte_first(0, 20, 0, destination);
            assert(covered.subrange(0, 16) =~= bytes::be128(source));
            assert(covered.subrange(16, 32) =~= bytes::be128(destination));
            assert(covered.subrange(32, 36) =~= bytes::be32(20));
        },
    }
}

/// Reading a reset finds its parts where its cursor says.
pub proof fn reset_is_found_by_its_cursor(reset: TcpReset, dont_fragment: bool)
    ensures
        cursor::control_cursor(reset.spec_packet(dont_fragment)) == Ok::<
            PacketCursor,
            TcpControlPacketParseError,
        >(reset::reset_cursor(reset.route)),
{
    let packet = reset.spec_packet(dont_fragment);
    let head = reset.route.network_header(dont_fragment);
    let segment = reset.segment(reset.segment_checksum());
    reset_network_header_is_sound(reset.route, dont_fragment);
    assert(segment.len() == 20);
    assert(segment[12] == 0x50);
    assert(packet.len() == head.len() + 20);
    assert(packet[0] == head[0]);
    assert(packet[2] == head[2] && packet[3] == head[3]);
    assert(packet[4] == head[4] && packet[5] == head[5]);
    assert(packet[head.len() as int + 12] == segment[12]);
}

/// A segment ends behind its payload, its SYN and its FIN, one position for each flag.
pub proof fn segment_ends_behind_its_parts(packet: TcpPacket)
    ensures
        packet.spec_end().value == (packet.sequence.value + packet.payload_len + (
        if packet.flags.syn {
            1int
        } else {
            0
        }) + (if packet.flags.fin {
            1int
        } else {
            0
        })) % 0x1_0000_0000,
        packet.flags.ack ==> packet.acknowledges() == packet.acknowledgment,
        !packet.flags.ack ==> packet.acknowledges() is None,
{
}

} // verus!
