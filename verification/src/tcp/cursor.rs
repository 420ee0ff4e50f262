//! Where the parts of a packet lie.
use vstd::prelude::*;

use crate::bytes;
use crate::bytes::be_u16;
use crate::tcp::header;
use crate::tcp::header::TCP_HEADER_LEN;

verus! {

/// The shortest IPv4 header.
pub const IPV4_HEADER_LEN: usize = 20;

/// The length of an IPv6 header.
pub const IPV6_HEADER_LEN: usize = 40;

/// Where the headers and the payload of a packet lie in its buffer.
#[derive(Clone, Copy, Debug, PartialEq, Eq, Structural)]
pub struct PacketCursor {
    pub packet_len: usize,
    pub network_header_offset: usize,
    pub network_header_len: usize,
    pub transport_header_offset: usize,
    pub transport_header_len: usize,
    pub transport_payload_offset: usize,
}

/// Why a packet has no cursor.
#[derive(Clone, Copy, Debug, PartialEq, Eq, Structural)]
pub enum TcpControlPacketParseError {
    EmptyPacket,
    PacketTooShort,
    UnsupportedIpVersion,
    InvalidCursor,
    InvalidHeaderLength,
}

/// The IP version that a packet's first byte announces.
pub open spec fn announced_version(first: u8) -> int {
    first as int / 16
}

/// The length of the network header that a packet announces.
pub open spec fn network_len(packet: Seq<u8>) -> int {
    if announced_version(packet[0]) == 4 {
        packet[0] as int % 16 * 4
    } else {
        IPV6_HEADER_LEN as int
    }
}

/// The length that a packet announces for itself.
pub open spec fn whole_len(packet: Seq<u8>) -> int {
    if announced_version(packet[0]) == 4 {
        bytes::read16(packet[2], packet[3]) as int
    } else {
        IPV6_HEADER_LEN + bytes::read16(packet[4], packet[5])
    }
}

/// The network header lies within the packet, and the packet within its buffer.
pub open spec fn lengths_agree(packet: Seq<u8>) -> bool {
    &&& whole_len(packet) <= packet.len()
    &&& IPV4_HEADER_LEN <= network_len(packet) < whole_len(packet)
}

/// The length of the transport header that a packet announces.
pub open spec fn transport_len(packet: Seq<u8>) -> int {
    header::announced_header_len(packet[network_len(packet) + 12])
}

/// The cursor over a packet whose headers are known to fit.
pub open spec fn cursor_over(packet: Seq<u8>) -> PacketCursor {
    PacketCursor {
        packet_len: whole_len(packet) as usize,
        network_header_offset: 0,
        network_header_len: network_len(packet) as usize,
        transport_header_offset: network_len(packet) as usize,
        transport_header_len: transport_len(packet) as usize,
        transport_payload_offset: (network_len(packet) + transport_len(packet)) as usize,
    }
}

/// The cursor of a TCP packet, or why it has none.
pub open spec fn control_cursor(packet: Seq<u8>) -> Result<
    PacketCursor,
    TcpControlPacketParseError,
> {
    if packet.len() == 0 {
        Err(TcpControlPacketParseError::EmptyPacket)
    } else if announced_version(packet[0]) != 4 && announced_version(packet[0]) != 6 {
        Err(TcpControlPacketParseError::UnsupportedIpVersion)
    } else if packet.len() < (if announced_version(packet[0]) == 4 {
        IPV4_HEADER_LEN
    } else {
        IPV6_HEADER_LEN
    }) + TCP_HEADER_LEN {
        Err(TcpControlPacketParseError::PacketTooShort)
    } else if !lengths_agree(packet) {
        Err(TcpControlPacketParseError::InvalidCursor)
    } else if transport_len(packet) < TCP_HEADER_LEN || network_len(packet) + transport_len(packet)
        > whole_len(packet) {
        Err(TcpControlPacketParseError::InvalidHeaderLength)
    } else {
        Ok(cursor_over(packet))
    }
}

/// Where the network header of an IPv4 packet leaves room, the byte that tells
/// the length of the transport header is in the buffer. Only options of the
/// network header can push it out.
pub open spec fn header_length_readable(packet: Seq<u8>) -> bool {
    packet.len() >= IPV4_HEADER_LEN + TCP_HEADER_LEN && announced_version(packet[0]) == 4
        && lengths_agree(packet) ==> network_len(packet) + 12 < packet.len()
}

/// The cursor of a TCP packet of either IP version.
pub fn tcp_control_cursor(packet: &[u8]) -> (r: Result<PacketCursor, TcpControlPacketParseError>)
    requires
        header_length_readable(packet@),
    ensures
        r == control_cursor(packet@),
{
    let count: usize = packet.len();
    if count == 0 {
        return Err(TcpControlPacketParseError::EmptyPacket);
    }
    let version: u8 = packet[0] / 16;
    let network_header_len: usize;
    let packet_len: usize;
    if version == 4 {
        if count < IPV4_HEADER_LEN + TCP_HEADER_LEN {
            return Err(TcpControlPacketParseError::PacketTooShort);
        }
        network_header_len = (packet[0] % 16) as usize * 4;
        packet_len = be_u16(packet, 2) as usize;
    } else if version == 6 {
        if count < IPV6_HEADER_LEN + TCP_HEADER_LEN {
            return Err(TcpControlPacketParseError::PacketTooShort);
        }
        network_header_len = IPV6_HEADER_LEN;
        packet_len = IPV6_HEADER_LEN + be_u16(packet, 4) as usize;
    } else {
        return Err(TcpControlPacketParseError::UnsupportedIpVersion);
    }
    if packet_len > count || network_header_len < IPV4_HEADER_LEN || network_header_len
        >= packet_len {
        return Err(TcpControlPacketParseError::InvalidCursor);
    }
    let tcp_header_len: usize = packet[network_header_len + 12] as usize / 16 * 4;
    if tcp_header_len < TCP_HEADER_LEN || network_header_len + tcp_header_len > packet_len {
        return Err(TcpControlPacketParseError::InvalidHeaderLength);
    }
    Ok(
        PacketCursor {
            packet_len,
            network_header_offset: 0,
            network_header_len,
            transport_header_offset: network_header_len,
            transport_header_len: tcp_header_len,
            transport_payload_offset: network_header_len + tcp_header_len,
        },
    )
}

/// A cursor keeps within its packet: the network header comes first, the
/// transport header follows it, and both end before the packet does.
pub proof fn cursor_stays_in_packet(packet: Seq<u8>)
    requires
        control_cursor(packet) is Ok,
    ensures
        ({
            let cursor = control_cursor(packet)->Ok_0;
            &&& cursor.network_header_offset == 0
            &&& cursor.transport_header_offset == cursor.network_header_len
            &&& cursor.transport_payload_offset == cursor.transport_header_offset
                + cursor.transport_header_len
            &&& cursor.transport_payload_offset <= cursor.packet_len <= packet.len()
            &&& cursor.network_header_len >= IPV4_HEADER_LEN
            &&& cursor.transport_header_len >= TCP_HEADER_LEN
        }),
{
    let network = network_len(packet);
    assert(0 <= packet[0] as int % 16 * 4 <= 60);
    assert(0 <= transport_len(packet) <= 60);
}

} // verus!
