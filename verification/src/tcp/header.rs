//! The fixed part of a segment header.
use vstd::prelude::*;

use crate::bytes;
use crate::bytes::{be_u16, be_u32, push_be16, push_be32};
use crate::tcp::types::TcpSegmentFlags;

verus! {

/// The length of a header without options.
pub const TCP_HEADER_LEN: usize = 20;

/// The data offset of a header without options, as it stands in the header.
pub const TCP_PLAIN_DATA_OFFSET: u8 = 0x50;

/// What the fixed part of a header says.
#[derive(Clone, Copy, Debug, PartialEq, Eq, Structural)]
pub struct TcpHeader {
    pub source_port: u16,
    pub destination_port: u16,
    pub sequence_number: u32,
    pub acknowledgment_number: u32,
    pub header_len: usize,
    pub flags: TcpSegmentFlags,
    pub window: u16,
}

/// The length that a header's offset byte announces.
pub open spec fn announced_header_len(offset_byte: u8) -> int {
    offset_byte as int / 16 * 4
}

/// The header that `segment` starts with, if it starts with a whole one.
pub open spec fn header_of(segment: Seq<u8>) -> Option<TcpHeader> {
    if segment.len() < TCP_HEADER_LEN {
        None
    } else {
        let header_len = announced_header_len(segment[12]);
        if header_len < TCP_HEADER_LEN || header_len > segment.len() {
            None
        } else {
            Some(
                TcpHeader {
                    source_port: bytes::read16(segment[0], segment[1]),
                    destination_port: bytes::read16(segment[2], segment[3]),
                    sequence_number: bytes::read32(segment[4], segment[5], segment[6], segment[7]),
                    acknowledgment_number: bytes::read32(
                        segment[8],
                        segment[9],
                        segment[10],
                        segment[11],
                    ),
                    header_len: header_len as usize,
                    flags: TcpSegmentFlags::spec_from_byte(segment[13], segment[12] % 2 == 1),
                    window: bytes::read16(segment[14], segment[15]),
                },
            )
        }
    }
}

/// The header that `segment` starts with.
pub fn tcp_header(segment: &[u8]) -> (r: Option<TcpHeader>)
    ensures
        r == header_of(segment@),
{
    if segment.len() < TCP_HEADER_LEN {
        return None;
    }
    let offset_byte: u8 = segment[12];
    let header_len: usize = offset_byte as usize / 16 * 4;
    if header_len < TCP_HEADER_LEN || header_len > segment.len() {
        return None;
    }
    Some(
        TcpHeader {
            source_port: be_u16(segment, 0),
            destination_port: be_u16(segment, 2),
            sequence_number: be_u32(segment, 4),
            acknowledgment_number: be_u32(segment, 8),
            header_len,
            flags: TcpSegmentFlags::from_byte(segment[13], offset_byte % 2 == 1),
            window: be_u16(segment, 14),
        },
    )
}

/// A header without options, window and urgent pointer, around its checksum.
pub open spec fn control_header(
    source_port: u16,
    destination_port: u16,
    sequence: u32,
    acknowledgment: u32,
    flags: u8,
    checksum: u16,
) -> Seq<u8> {
    bytes::be16(source_port) + bytes::be16(destination_port) + bytes::be32(sequence) + bytes::be32(
        acknowledgment,
    ) + seq![TCP_PLAIN_DATA_OFFSET, flags, 0u8, 0u8] + bytes::be16(checksum) + seq![0u8, 0u8]
}

/// Appends a header without options, window and urgent pointer.
pub fn push_control_header(
    out: &mut Vec<u8>,
    source_port: u16,
    destination_port: u16,
    sequence: u32,
    acknowledgment: u32,
    flags: u8,
    checksum: u16,
)
    ensures
        final(out)@ == old(out)@ + control_header(
            source_port,
            destination_port,
            sequence,
            acknowledgment,
            flags,
            checksum,
        ),
{
    push_be16(out, source_port);
    push_be16(out, destination_port);
    push_be32(out, sequence);
    push_be32(out, acknowledgment);
    out.push(TCP_PLAIN_DATA_OFFSET);
    out.push(flags);
    out.push(0);
    out.push(0);
    push_be16(out, checksum);
    out.push(0);
    out.push(0);
    proof {
        assert(out@ =~= old(out)@ + control_header(
            source_port,
            destination_port,
            sequence,
            acknowledgment,
            flags,
            checksum,
        ));
    }
}

/// A written header is parsed back as it was written, whatever follows it.
pub proof fn written_header_is_parsed(
    source_port: u16,
    destination_port: u16,
    sequence: u32,
    acknowledgment: u32,
    flags: u8,
    checksum: u16,
    payload: Seq<u8>,
)
    ensures
        header_of(
            control_header(
                source_port,
                destination_port,
                sequence,
                acknowledgment,
                flags,
                checksum,
            ) + payload,
        ) == Some(
            TcpHeader {
                source_port,
                destination_port,
                sequence_number: sequence,
                acknowledgment_number: acknowledgment,
                header_len: TCP_HEADER_LEN,
                flags: TcpSegmentFlags::spec_from_byte(flags, false),
                window: 0,
            },
        ),
{
    bytes::be16_round_trip(source_port);
    bytes::be16_round_trip(destination_port);
    bytes::be32_round_trip(sequence);
    bytes::be32_round_trip(acknowledgment);
    let header = control_header(
        source_port,
        destination_port,
        sequence,
        acknowledgment,
        flags,
        checksum,
    );
    assert(header.len() == 20);
    assert(header.subrange(0, 2) =~= bytes::be16(source_port));
    assert(header.subrange(2, 4) =~= bytes::be16(destination_port));
    assert(header.subrange(4, 8) =~= bytes::be32(sequence));
    assert(header.subrange(8, 12) =~= bytes::be32(acknowledgment));
}

} // verus!
