//! The cursor of a control packet that is answered over IPv4.
use vstd::prelude::*;

use crate::tcp::cursor;
use crate::tcp::cursor::{PacketCursor, TcpControlPacketParseError, IPV4_HEADER_LEN};
use crate::tcp::header::TCP_HEADER_LEN;

verus! {

/// Why a packet is no IPv4 control packet.
#[derive(Clone, Copy, Debug, PartialEq, Eq, Structural)]
pub enum ControlCursorError {
    Empty,
    NotIpv4,
    TooShort,
    CursorInvalid,
    HeaderLengthInvalid,
}

impl ControlCursorError {
    /// The words that a person is shown.
    pub open spec fn spec_message(self) -> Seq<char> {
        match self {
            ControlCursorError::Empty => "tcp control packet is empty"@,
            ControlCursorError::NotIpv4 => "tcp control packet must be IPv4"@,
            ControlCursorError::TooShort => "tcp control packet is too short"@,
            ControlCursorError::CursorInvalid => "tcp control packet cursor is invalid"@,
            ControlCursorError::HeaderLengthInvalid => "tcp control header length is invalid"@,
        }
    }

    pub fn message(self) -> (r: &'static str)
        ensures
            r@ == self.spec_message(),
    {
        match self {
            ControlCursorError::Empty => "tcp control packet is empty",
            ControlCursorError::NotIpv4 => "tcp control packet must be IPv4",
            ControlCursorError::TooShort => "tcp control packet is too short",
            ControlCursorError::CursorInvalid => "tcp control packet cursor is invalid",
            ControlCursorError::HeaderLengthInvalid => "tcp control header length is invalid",
        }
    }
}

/// The cursor of an IPv4 TCP packet, or why it has none.
pub open spec fn ipv4_control_cursor(packet: Seq<u8>) -> Result<PacketCursor, ControlCursorError> {
    if packet.len() == 0 {
        Err(ControlCursorError::Empty)
    } else if cursor::announced_version(packet[0]) != 4 {
        Err(ControlCursorError::NotIpv4)
    } else if packet.len() < IPV4_HEADER_LEN + TCP_HEADER_LEN {
        Err(ControlCursorError::TooShort)
    } else if !cursor::lengths_agree(packet) {
        Err(ControlCursorError::CursorInvalid)
    } else if cursor::transport_len(packet) < TCP_HEADER_LEN || cursor::network_len(packet)
        + cursor::transport_len(packet) > cursor::whole_len(packet) {
        Err(ControlCursorError::HeaderLengthInvalid)
    } else {
        Ok(cursor::cursor_over(packet))
    }
}

/// The cursor of an IPv4 TCP packet.
pub fn tcp_control_cursor(packet: &[u8]) -> (r: Result<PacketCursor, ControlCursorError>)
    requires
        cursor::header_length_readable(packet@),
    ensures
        r == ipv4_control_cursor(packet@),
{
    if packet.len() != 0 && packet[0] / 16 != 4 {
        return Err(ControlCursorError::NotIpv4);
    }
    match cursor::tcp_control_cursor(packet) {
        Ok(found) => Ok(found),
        Err(TcpControlPacketParseError::EmptyPacket) => Err(ControlCursorError::Empty),
        Err(TcpControlPacketParseError::UnsupportedIpVersion) => Err(ControlCursorError::NotIpv4),
        Err(TcpControlPacketParseError::PacketTooShort) => Err(ControlCursorError::TooShort),
        Err(TcpControlPacketParseError::InvalidCursor) => Err(ControlCursorError::CursorInvalid),
        Err(TcpControlPacketParseError::InvalidHeaderLength) => Err(
            ControlCursorError::HeaderLengthInvalid,
        ),
    }
}

} // verus!
