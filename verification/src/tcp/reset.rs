//! The resets that answer segments nobody expects.
use vstd::prelude::*;
use vstd::slice::slice_subrange;

use crate::bytes;
use crate::bytes::{be_u128, be_u32, push_be128, push_be16, push_be32};
use crate::checksum;
use crate::checksum::internet_checksum;
use crate::tcp::cursor::{PacketCursor, IPV4_HEADER_LEN, IPV6_HEADER_LEN};
use crate::tcp::header;
use crate::tcp::header::{push_control_header, tcp_header, TCP_HEADER_LEN};
use crate::tcp::output::{TCP_FLAG_ACK, TCP_FLAG_RST};
use crate::tcp::sequence::TcpSeq;
use crate::tcp::types::TcpSegmentFlags;

verus! {

/// The protocol number of TCP.
pub const IP_PROTOCOL_TCP: u8 = 6;

/// How many hops a reset may take.
pub const TCP_RESET_HOPS: u8 = 64;

/// The bit of an IPv4 header that forbids fragments, in its byte.
pub const IPV4_DONT_FRAGMENT: u8 = 0x40;

/// Where the reset stage sends a buffer.
#[derive(Clone, Copy, Debug, PartialEq, Eq, Structural)]
pub enum TcpResetNext {
    Drop,
    Lookup,
}

/// The addresses that a packet is sent between, of one IP version.
#[derive(Clone, Copy, Debug, PartialEq, Eq, Structural)]
#[allow(inconsistent_fields)]
pub enum IpRoute {
    V4 { source: u32, destination: u32 },
    V6 { source: u128, destination: u128 },
}

/// A reset to send.
#[derive(Clone, Copy, Debug, PartialEq, Eq, Structural)]
pub struct TcpReset {
    pub route: IpRoute,
    pub source_port: u16,
    pub destination_port: u16,
    pub sequence: u32,
    pub acknowledgment: u32,
    pub flags: u8,
}

/// How much of a packet is both in its buffer and part of it.
pub open spec fn available_len(packet: Seq<u8>, cursor: PacketCursor) -> int {
    vstd::math::min(packet.len() as int, cursor.packet_len as int)
}

/// The four bytes at `at` as a number.
pub open spec fn word_at(packet: Seq<u8>, at: int) -> u32 {
    bytes::read32(packet[at], packet[at + 1], packet[at + 2], packet[at + 3])
}

/// The way back to a packet's sender, where its network header is whole.
pub open spec fn way_back(packet: Seq<u8>, cursor: PacketCursor) -> Option<IpRoute> {
    let offset = cursor.network_header_offset as int;
    let fits = offset + cursor.network_header_len <= available_len(packet, cursor);
    let version = packet[offset] as int / 16;
    if version == 4 && fits && cursor.network_header_len >= IPV4_HEADER_LEN && packet[offset] as int
        % 16 * 4 >= IPV4_HEADER_LEN {
        Some(
            IpRoute::V4 {
                source: word_at(packet, offset + 16),
                destination: word_at(packet, offset + 12),
            },
        )
    } else if version == 6 && fits && cursor.network_header_len >= IPV6_HEADER_LEN {
        Some(
            IpRoute::V6 {
                source: bytes::read128(packet, offset + 24),
                destination: bytes::read128(packet, offset + 8),
            },
        )
    } else {
        None
    }
}

/// How much sequence space a segment takes: its payload, its SYN and its FIN.
pub open spec fn sequence_len(payload_len: int, flags: TcpSegmentFlags) -> int {
    payload_len + (if flags.syn {
        1int
    } else {
        0
    }) + (if flags.fin {
        1int
    } else {
        0
    })
}

/// The reset that answers a packet. What is broken, and what is a reset itself,
/// gets none.
pub open spec fn reset_for(packet: Seq<u8>, cursor: PacketCursor) -> Option<TcpReset> {
    let available = available_len(packet, cursor);
    let payload = cursor.transport_payload_offset as int;
    if cursor.transport_header_offset > available || payload > available
        || cursor.network_header_offset > available || cursor.network_header_offset
        == packet.len() {
        None
    } else {
        match header::header_of(
            packet.subrange(cursor.transport_header_offset as int, available),
        ) {
            None => None,
            Some(tcp) => {
                let taken = sequence_len(available - payload, tcp.flags);
                if payload != cursor.transport_header_offset + tcp.header_len || tcp.flags.rst
                    || taken > u32::MAX {
                    None
                } else {
                    match way_back(packet, cursor) {
                        None => None,
                        Some(route) => Some(
                            TcpReset {
                                route,
                                source_port: tcp.destination_port,
                                destination_port: tcp.source_port,
                                sequence: if tcp.flags.ack {
                                    tcp.acknowledgment_number
                                } else {
                                    0
                                },
                                acknowledgment: if tcp.flags.ack {
                                    0
                                } else {
                                    (TcpSeq { value: tcp.sequence_number }).spec_advance(
                                        taken as u32,
                                    ).value
                                },
                                flags: if tcp.flags.ack {
                                    TCP_FLAG_RST
                                } else {
                                    0x14
                                },
                            },
                        ),
                    }
                }
            },
        }
    }
}

/// The way back to a packet's sender.
fn route_back(packet: &[u8], cursor: PacketCursor, available: usize) -> (r: Option<IpRoute>)
    requires
        available == available_len(packet@, cursor),
        cursor.network_header_offset <= available,
        cursor.network_header_offset < packet@.len(),
    ensures
        r == way_back(packet@, cursor),
{
    let offset: usize = cursor.network_header_offset;
    let version: u8 = packet[offset] / 16;
    let fits: bool = cursor.network_header_len <= available - offset;
    if version == 4 {
        if !fits || cursor.network_header_len < IPV4_HEADER_LEN || (packet[offset] % 16) as usize
            * 4 < IPV4_HEADER_LEN {
            return None;
        }
        Some(
            IpRoute::V4 {
                source: be_u32(packet, offset + 16),
                destination: be_u32(packet, offset + 12),
            },
        )
    } else if version == 6 {
        if !fits || cursor.network_header_len < IPV6_HEADER_LEN {
            return None;
        }
        Some(
            IpRoute::V6 {
                source: be_u128(packet, offset + 24),
                destination: be_u128(packet, offset + 8),
            },
        )
    } else {
        None
    }
}

/// The reset that answers the packet under `cursor`.
pub fn tcp_reset_prepare_from_current(packet: &[u8], cursor: PacketCursor) -> (r: Option<TcpReset>)
    ensures
        r == reset_for(packet@, cursor),
{
    let count: usize = packet.len();
    let available: usize = if count < cursor.packet_len {
        count
    } else {
        cursor.packet_len
    };
    if cursor.transport_header_offset > available || cursor.transport_payload_offset > available
        || cursor.network_header_offset > available || cursor.network_header_offset == count {
        return None;
    }
    let segment = slice_subrange(packet, cursor.transport_header_offset, available);
    let Some(tcp) = tcp_header(segment) else {
        return None;
    };
    assert(tcp.header_len <= available - cursor.transport_header_offset);
    if cursor.transport_payload_offset != cursor.transport_header_offset + tcp.header_len {
        return None;
    }
    if tcp.flags.rst {
        return None;
    }
    let payload_len: usize = available - cursor.transport_payload_offset;
    let control_len: usize = if tcp.flags.syn && tcp.flags.fin {
        2
    } else if tcp.flags.syn || tcp.flags.fin {
        1
    } else {
        0
    };
    if payload_len > u32::MAX as usize - control_len {
        return None;
    }
    let taken: u32 = (payload_len + control_len) as u32;
    let Some(route) = route_back(packet, cursor, available) else {
        return None;
    };
    if tcp.flags.ack {
        Some(
            TcpReset {
                route,
                source_port: tcp.destination_port,
                destination_port: tcp.source_port,
                sequence: tcp.acknowledgment_number,
                acknowledgment: 0,
                flags: TCP_FLAG_RST,
            },
        )
    } else {
        Some(
            TcpReset {
                route,
                source_port: tcp.destination_port,
                destination_port: tcp.source_port,
                sequence: 0,
                acknowledgment: TcpSeq::new(tcp.sequence_number).advance(taken).raw(),
                flags: TCP_FLAG_RST + TCP_FLAG_ACK,
            },
        )
    }
}

/// The IPv4 header of a reset up to its addresses, around its checksum.
pub open spec fn ipv4_lead(dont_fragment: bool, checksum: u16) -> Seq<u8> {
    seq![0x45u8, 0u8, 0u8, 40u8, 0u8, 0u8] + seq![
        if dont_fragment {
            IPV4_DONT_FRAGMENT
        } else {
            0u8
        },
        0u8,
        TCP_RESET_HOPS,
        IP_PROTOCOL_TCP,
    ] + bytes::be16(checksum)
}

/// The IPv4 header of a reset, around its checksum.
pub open spec fn ipv4_header(
    source: u32,
    destination: u32,
    dont_fragment: bool,
    checksum: u16,
) -> Seq<u8> {
    ipv4_lead(dont_fragment, checksum) + bytes::be32(source) + bytes::be32(destination)
}

/// What the checksum of a segment over IPv4 covers besides the segment.
pub open spec fn ipv4_pseudo_header(source: u32, destination: u32) -> Seq<u8> {
    bytes::be32(source) + bytes::be32(destination) + seq![0u8, IP_PROTOCOL_TCP] + bytes::be16(20)
}

/// The IPv6 header of a reset up to its addresses.
pub open spec fn ipv6_lead() -> Seq<u8> {
    seq![0x60u8, 0u8, 0u8, 0u8] + bytes::be16(20) + seq![IP_PROTOCOL_TCP, TCP_RESET_HOPS]
}

/// The IPv6 header of a reset.
pub open spec fn ipv6_header(source: u128, destination: u128) -> Seq<u8> {
    ipv6_lead() + bytes::be128(source) + bytes::be128(destination)
}

/// What the checksum of a segment over IPv6 covers besides the segment.
pub open spec fn ipv6_pseudo_header(source: u128, destination: u128) -> Seq<u8> {
    bytes::be128(source) + bytes::be128(destination) + bytes::be32(20) + seq![
        0u8,
        0u8,
        0u8,
        IP_PROTOCOL_TCP,
    ]
}

impl IpRoute {
    /// What the checksum of a segment covers besides the segment.
    pub open spec fn pseudo_header(self) -> Seq<u8> {
        match self {
            IpRoute::V4 { source, destination } => ipv4_pseudo_header(source, destination),
            IpRoute::V6 { source, destination } => ipv6_pseudo_header(source, destination),
        }
    }

    /// The network header of a reset, its checksum in place.
    pub open spec fn network_header(self, dont_fragment: bool) -> Seq<u8> {
        match self {
            IpRoute::V4 { source, destination } => ipv4_header(
                source,
                destination,
                dont_fragment,
                checksum::checksum_of(ipv4_header(source, destination, dont_fragment, 0)),
            ),
            IpRoute::V6 { source, destination } => ipv6_header(source, destination),
        }
    }

    /// The length of the network header.
    pub open spec fn spec_header_len(self) -> usize {
        match self {
            IpRoute::V4 { .. } => IPV4_HEADER_LEN,
            IpRoute::V6 { .. } => IPV6_HEADER_LEN,
        }
    }

    pub fn header_len(self) -> (r: usize)
        ensures
            r == self.spec_header_len(),
    {
        match self {
            IpRoute::V4 { .. } => IPV4_HEADER_LEN,
            IpRoute::V6 { .. } => IPV6_HEADER_LEN,
        }
    }
}

impl TcpReset {
    /// The segment header of the reset, around its checksum.
    pub open spec fn segment(self, checksum: u16) -> Seq<u8> {
        header::control_header(
            self.source_port,
            self.destination_port,
            self.sequence,
            self.acknowledgment,
            self.flags,
            checksum,
        )
    }

    /// The checksum of the segment header.
    pub open spec fn segment_checksum(self) -> u16 {
        checksum::checksum_of(self.route.pseudo_header() + self.segment(0))
    }

    /// The whole packet.
    pub open spec fn spec_packet(self, dont_fragment: bool) -> Seq<u8> {
        self.route.network_header(dont_fragment) + self.segment(self.segment_checksum())
    }

    fn push_segment(&self, out: &mut Vec<u8>, checksum: u16)
        ensures
            final(out)@ == old(out)@ + self.segment(checksum),
    {
        push_control_header(
            out,
            self.source_port,
            self.destination_port,
            self.sequence,
            self.acknowledgment,
            self.flags,
            checksum,
        );
    }

    /// The whole packet.
    pub fn packet(&self, dont_fragment: bool) -> (r: Vec<u8>)
        ensures
            r@ == self.spec_packet(dont_fragment),
    {
        let mut covered: Vec<u8> = Vec::new();
        let mut out: Vec<u8> = Vec::new();
        match self.route {
            IpRoute::V4 { source, destination } => {
                push_be32(&mut covered, source);
                push_be32(&mut covered, destination);
                covered.push(0);
                covered.push(IP_PROTOCOL_TCP);
                push_be16(&mut covered, 20);
                assert(covered@ =~= ipv4_pseudo_header(source, destination));
                let mut unchecked: Vec<u8> = Vec::new();
                push_ipv4_header(&mut unchecked, source, destination, dont_fragment, 0);
                assert(unchecked@ =~= ipv4_header(source, destination, dont_fragment, 0));
                let header_checksum: u16 = internet_checksum(unchecked.as_slice());
                push_ipv4_header(&mut out, source, destination, dont_fragment, header_checksum);
            },
            IpRoute::V6 { source, destination } => {
                push_be128(&mut covered, source);
                push_be128(&mut covered, destination);
                push_be32(&mut covered, 20);
                covered.push(0);
                covered.push(0);
                covered.push(0);
                covered.push(IP_PROTOCOL_TCP);
                assert(covered@ =~= ipv6_pseudo_header(source, destination));
                push_ipv6_header(&mut out, source, destination);
            },
        }
        assert(out@ =~= self.route.network_header(dont_fragment));
        self.push_segment(&mut covered, 0);
        let segment_checksum: u16 = internet_checksum(covered.as_slice());
        self.push_segment(&mut out, segment_checksum);
        out
    }
}

fn push_ipv4_header(
    out: &mut Vec<u8>,
    source: u32,
    destination: u32,
    dont_fragment: bool,
    checksum: u16,
)
    ensures
        final(out)@ == old(out)@ + ipv4_header(source, destination, dont_fragment, checksum),
{
    out.push(0x45);
    out.push(0);
    out.push(0);
    out.push(40);
    out.push(0);
    out.push(0);
    out.push(
        if dont_fragment {
            IPV4_DONT_FRAGMENT
        } else {
            0
        },
    );
    out.push(0);
    out.push(TCP_RESET_HOPS);
    out.push(IP_PROTOCOL_TCP);
    push_be16(out, checksum);
    push_be32(out, source);
    push_be32(out, destination);
    proof {
        assert(out@ =~= old(out)@ + ipv4_header(source, destination, dont_fragment, checksum));
    }
}

fn push_ipv6_header(out: &mut Vec<u8>, source: u128, destination: u128)
    ensures
        final(out)@ == old(out)@ + ipv6_header(source, destination),
{
    out.push(0x60);
    out.push(0);
    out.push(0);
    out.push(0);
    push_be16(out, 20);
    out.push(IP_PROTOCOL_TCP);
    out.push(TCP_RESET_HOPS);
    push_be128(out, source);
    push_be128(out, destination);
    proof {
        assert(out@ =~= old(out)@ + ipv6_header(source, destination));
    }
}

/// The cursor over a reset along `route`.
pub open spec fn reset_cursor(route: IpRoute) -> PacketCursor {
    let network = route.spec_header_len();
    PacketCursor {
        packet_len: (network + TCP_HEADER_LEN) as usize,
        network_header_offset: 0,
        network_header_len: network,
        transport_header_offset: network,
        transport_header_len: TCP_HEADER_LEN,
        transport_payload_offset: (network + TCP_HEADER_LEN) as usize,
    }
}

/// A packet that takes a buffer over, and where its parts lie.
#[derive(Clone, Debug)]
pub struct TcpResetReply {
    pub packet: Vec<u8>,
    pub cursor: PacketCursor,
}

/// What the reset stage makes of a packet.
#[derive(Clone, Debug)]
pub struct TcpResetOutcome {
    pub next: TcpResetNext,
    pub reply: Option<TcpResetReply>,
}

/// Turns the packet in a buffer with `room` bytes into the reset that answers it.
pub fn tcp_reset_next(packet: &[u8], cursor: PacketCursor, room: usize, dont_fragment: bool) -> (r:
    TcpResetOutcome)
    ensures
        match reset_for(packet@, cursor) {
            Some(reset) if reset.route.spec_header_len() + TCP_HEADER_LEN <= room => {
                &&& r.next == TcpResetNext::Lookup
                &&& r.reply is Some
                &&& r.reply->0.packet@ == reset.spec_packet(dont_fragment)
                &&& r.reply->0.cursor == reset_cursor(reset.route)
            },
            _ => r.next == TcpResetNext::Drop && r.reply is None,
        },
{
    let Some(reset) = tcp_reset_prepare_from_current(packet, cursor) else {
        return TcpResetOutcome { next: TcpResetNext::Drop, reply: None };
    };
    let network: usize = reset.route.header_len();
    if network + TCP_HEADER_LEN > room {
        return TcpResetOutcome { next: TcpResetNext::Drop, reply: None };
    }
    let reply_cursor = PacketCursor {
        packet_len: network + TCP_HEADER_LEN,
        network_header_offset: 0,
        network_header_len: network,
        transport_header_offset: network,
        transport_header_len: TCP_HEADER_LEN,
        transport_payload_offset: network + TCP_HEADER_LEN,
    };
    TcpResetOutcome {
        next: TcpResetNext::Lookup,
        reply: Some(
            TcpResetReply { packet: reset.packet(dont_fragment), cursor: reply_cursor },
        ),
    }
}

/// The checksums of a reset are what its receiver checks them for.
pub proof fn reset_checksums_validate(reset: TcpReset, dont_fragment: bool)
    ensures
        reset.route is V4 ==> checksum::checksum_of(reset.spec_packet(dont_fragment).take(20)) == 0,
        checksum::checksum_of(
            reset.route.pseudo_header() + reset.spec_packet(dont_fragment).skip(
                reset.route.spec_header_len() as int,
            ),
        ) == 0,
{
    let packet = reset.spec_packet(dont_fragment);
    let pseudo = reset.route.pseudo_header();
    match reset.route {
        IpRoute::V4 { source, destination } => {
            let unchecked = ipv4_header(source, destination, dont_fragment, 0);
            checksum::written_checksum_validates(unchecked, 10);
            assert(packet.take(20) =~= checksum::with_word(
                unchecked,
                10,
                checksum::checksum_of(unchecked),
            ));
            assert(pseudo.len() == 12);
        },
        IpRoute::V6 { source, destination } => {
            assert(pseudo.len() == 40);
        },
    }
    let covered = pseudo + reset.segment(0);
    let at = pseudo.len() as int + 16;
    checksum::written_checksum_validates(covered, at);
    assert(reset.route.network_header(dont_fragment).len() == reset.route.spec_header_len());
    assert(packet.skip(reset.route.spec_header_len() as int) =~= reset.segment(
        reset.segment_checksum(),
    ));
    assert(pseudo + reset.segment(reset.segment_checksum()) =~= checksum::with_word(
        covered,
        at,
        checksum::checksum_of(covered),
    ));
}

proof fn lemma_words_read(lead: Seq<u8>, first: u32, second: u32, rest: Seq<u8>)
    ensures
        ({
            let all = lead + bytes::be32(first) + bytes::be32(second) + rest;
            &&& word_at(all, lead.len() as int) == first
            &&& word_at(all, lead.len() as int + 4) == second
        }),
{
    let all = lead + bytes::be32(first) + bytes::be32(second) + rest;
    let n = lead.len() as int;
    bytes::be32_round_trip(first);
    bytes::be32_round_trip(second);
    assert(all[n] == bytes::be32(first)[0] && all[n + 1] == bytes::be32(first)[1] && all[n + 2]
        == bytes::be32(first)[2] && all[n + 3] == bytes::be32(first)[3]);
    assert(all[n + 4] == bytes::be32(second)[0] && all[n + 5] == bytes::be32(second)[1] && all[n
        + 6] == bytes::be32(second)[2] && all[n + 7] == bytes::be32(second)[3]);
}

proof fn lemma_long_words_read(lead: Seq<u8>, first: u128, second: u128, rest: Seq<u8>)
    ensures
        ({
            let all = lead + bytes::be128(first) + bytes::be128(second) + rest;
            &&& bytes::read128(all, lead.len() as int) == first
            &&& bytes::read128(all, lead.len() as int + 16) == second
        }),
{
    let all = lead + bytes::be128(first) + bytes::be128(second) + rest;
    let n = lead.len() as int;
    assert(bytes::be128(first).len() == 16 && bytes::be128(second).len() == 16);
    assert(all.subrange(n, n + 16) =~= bytes::be128(first));
    bytes::be128_read_at(all, n, first);
    assert(all.subrange(n + 16, n + 32) =~= bytes::be128(second));
    bytes::be128_read_at(all, n + 16, second);
}

proof fn lemma_ipv4_shape(
    source: u32,
    destination: u32,
    dont_fragment: bool,
    check: u16,
    rest: Seq<u8>,
)
    ensures
        ({
            let header = ipv4_header(source, destination, dont_fragment, check);
            &&& header.len() == IPV4_HEADER_LEN
            &&& word_at(header + rest, 12) == source
            &&& word_at(header + rest, 16) == destination
        }),
{
    assert(ipv4_lead(dont_fragment, check).len() == 12);
    lemma_words_read(ipv4_lead(dont_fragment, check), source, destination, rest);
}

proof fn lemma_ipv6_shape(source: u128, destination: u128, rest: Seq<u8>)
    ensures
        ({
            let header = ipv6_header(source, destination);
            &&& header.len() == IPV6_HEADER_LEN
            &&& bytes::read128(header + rest, 8) == source
            &&& bytes::read128(header + rest, 24) == destination
        }),
{
    assert(ipv6_lead().len() == 8);
    lemma_long_words_read(ipv6_lead(), source, destination, rest);
}

/// The packet of a reset holds the addresses that it is sent between, and behind
/// them its segment header.
pub proof fn reset_packet_shape(reset: TcpReset, dont_fragment: bool)
    ensures
        ({
            let packet = reset.spec_packet(dont_fragment);
            let network = reset.route.spec_header_len() as int;
            &&& packet.len() == network + TCP_HEADER_LEN
            &&& packet.skip(network) == reset.segment(reset.segment_checksum())
            &&& match reset.route {
                IpRoute::V4 { source, destination } => word_at(packet, 12) == source && word_at(
                    packet,
                    16,
                ) == destination,
                IpRoute::V6 { source, destination } => bytes::read128(packet, 8) == source
                    && bytes::read128(packet, 24) == destination,
            }
        }),
{
    let packet = reset.spec_packet(dont_fragment);
    let segment = reset.segment(reset.segment_checksum());
    let head = reset.route.network_header(dont_fragment);
    assert(segment.len() == TCP_HEADER_LEN);
    assert(packet == head + segment);
    match reset.route {
        IpRoute::V4 { source, destination } => {
            let check = checksum::checksum_of(ipv4_header(source, destination, dont_fragment, 0));
            lemma_ipv4_shape(source, destination, dont_fragment, check, segment);
        },
        IpRoute::V6 { source, destination } => {
            lemma_ipv6_shape(source, destination, segment);
        },
    }
    assert(packet.skip(head.len() as int) =~= segment);
}

proof fn lemma_reset_flags()
    ensures
        TCP_FLAG_RST & 0x04 != 0,
        TCP_FLAG_RST & 0x10 == 0,
        0x14u8 & 0x04 != 0,
        0x14u8 & 0x10 != 0,
{
    assert(0x04u8 & 0x04 != 0) by (bit_vector);
    assert(0x04u8 & 0x10 == 0) by (bit_vector);
    assert(0x14u8 & 0x04 != 0 && 0x14u8 & 0x10 != 0) by (bit_vector);
}

/// The segment header that a packet holds under its cursor.
pub open spec fn header_under(packet: Seq<u8>, cursor: PacketCursor) -> Option<
    header::TcpHeader,
> {
    header::header_of(
        packet.subrange(cursor.transport_header_offset as int, available_len(packet, cursor)),
    )
}

/// A reset reads as what it is: from the port that the answered segment went to,
/// back to its sender, with the RST flag set and the ACK flag the other way.
pub proof fn reset_is_readable(packet: Seq<u8>, cursor: PacketCursor, dont_fragment: bool)
    requires
        reset_for(packet, cursor) is Some,
    ensures
        ({
            let reset = reset_for(packet, cursor)->0;
            let read = header_under(
                reset.spec_packet(dont_fragment),
                reset_cursor(reset.route),
            );
            let asked = header_under(packet, cursor)->0;
            &&& read is Some
            &&& read->0.source_port == asked.destination_port
            &&& read->0.destination_port == asked.source_port
            &&& read->0.flags.rst
            &&& read->0.flags.ack == !asked.flags.ack
            &&& asked.flags.ack ==> read->0.sequence_number == asked.acknowledgment_number
        }),
{
    let reset = reset_for(packet, cursor)->0;
    let reply = reset.spec_packet(dont_fragment);
    let network = reset.route.spec_header_len() as int;
    let segment = reset.segment(reset.segment_checksum());
    reset_packet_shape(reset, dont_fragment);
    assert(reply.subrange(network, reply.len() as int) =~= reply.skip(network));
    assert(segment + Seq::<u8>::empty() =~= segment);
    header::written_header_is_parsed(
        reset.source_port,
        reset.destination_port,
        reset.sequence,
        reset.acknowledgment,
        reset.flags,
        reset.segment_checksum(),
        Seq::empty(),
    );
    lemma_reset_flags();
}

/// A reset is never answered with a reset.
pub proof fn resets_are_not_answered(packet: Seq<u8>, cursor: PacketCursor, dont_fragment: bool)
    requires
        reset_for(packet, cursor) is Some,
    ensures
        ({
            let reset = reset_for(packet, cursor)->0;
            reset_for(reset.spec_packet(dont_fragment), reset_cursor(reset.route)) is None
        }),
{
    reset_is_readable(packet, cursor, dont_fragment);
}

} // verus!
