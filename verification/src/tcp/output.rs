//! What leaves: how much a connection may put into its next segment, and which
//! buffers go on to the network.
use vstd::prelude::*;

use crate::arith;
use crate::arith::{min_u32, min_usize};
use crate::tcp::congestion_control;
use crate::tcp::errors::TcpOutputError;
use crate::tcp::header;
use crate::tcp::header::tcp_header;
use crate::tcp::sequence::TcpSeq;

verus! {

pub const DEFAULT_TCP_OUTPUT_PAYLOAD_LEN: usize = 1_440;

pub const TCP_FLAG_FIN: u8 = 0x01;

pub const TCP_FLAG_SYN: u8 = 0x02;

pub const TCP_FLAG_RST: u8 = 0x04;

pub const TCP_FLAG_PSH: u8 = 0x08;

pub const TCP_FLAG_ACK: u8 = 0x10;

/// Where the output stage sends a buffer.
#[derive(Clone, Copy, Debug, PartialEq, Eq, Structural)]
pub enum TcpOutputNext {
    Drop,
    Lookup,
}

/// Sends a buffer on if it starts with a segment header.
pub fn tcp_output_next(current: &[u8]) -> (r: (TcpOutputNext, Option<TcpOutputError>))
    ensures
        r == (if header::header_of(current@) is Some {
            (TcpOutputNext::Lookup, None::<TcpOutputError>)
        } else {
            (TcpOutputNext::Drop, Some(TcpOutputError::NoTcpHeader))
        }),
{
    if tcp_header(current).is_none() {
        return (TcpOutputNext::Drop, Some(TcpOutputError::NoTcpHeader));
    }
    (TcpOutputNext::Lookup, None)
}

/// The largest payload of one segment: the peer's limit, if it set one, but no
/// more than the default.
pub open spec fn output_payload_len(peer_max_segment_size: Option<u16>) -> usize {
    match peer_max_segment_size {
        Some(limit) if limit != 0 && limit < DEFAULT_TCP_OUTPUT_PAYLOAD_LEN => limit as usize,
        _ => DEFAULT_TCP_OUTPUT_PAYLOAD_LEN,
    }
}

pub fn tcp_effective_output_payload_len(peer_max_segment_size: Option<u16>) -> (r: usize)
    ensures
        r == output_payload_len(peer_max_segment_size),
        0 < r <= DEFAULT_TCP_OUTPUT_PAYLOAD_LEN,
{
    match peer_max_segment_size {
        Some(limit) => {
            if limit != 0 && (limit as usize) < DEFAULT_TCP_OUTPUT_PAYLOAD_LEN {
                limit as usize
            } else {
                DEFAULT_TCP_OUTPUT_PAYLOAD_LEN
            }
        },
        None => DEFAULT_TCP_OUTPUT_PAYLOAD_LEN,
    }
}

pub fn tcp_send_goal_size(peer_max_segment_size: Option<u16>) -> (r: usize)
    ensures
        r == output_payload_len(peer_max_segment_size),
{
    tcp_effective_output_payload_len(peer_max_segment_size)
}

/// What the tighter of the two windows leaves once what is in flight is taken off.
pub open spec fn send_window_left(
    snd_una: u32,
    snd_nxt: u32,
    snd_wnd: u32,
    congestion_window: u32,
) -> u32 {
    arith::saturate_u32(
        vstd::math::min(snd_wnd as int, congestion_window as int)
            - congestion_control::distance_between(snd_una, snd_nxt),
    )
}

pub fn tcp_available_send_window(
    snd_una: u32,
    snd_nxt: u32,
    snd_wnd: u32,
    congestion_window: u32,
) -> (r: u32)
    ensures
        r == send_window_left(snd_una, snd_nxt, snd_wnd, congestion_window),
{
    min_u32(snd_wnd, congestion_window).saturating_sub(tcp_inflight_sequence_len(snd_una, snd_nxt))
}

/// How much of a requested payload fits what a window leaves beside `control_len`.
pub open spec fn payload_that_fits(left: u32, requested: usize, control_len: u32) -> int {
    vstd::math::min(arith::saturate_u32(left - control_len) as int, requested as int)
}

/// How much of a requested payload fits, with `control_len` kept for flags.
pub fn tcp_payload_len_in_send_window(
    snd_una: u32,
    snd_nxt: u32,
    snd_wnd: u32,
    congestion_window: u32,
    requested_payload_len: usize,
    control_len: u32,
) -> (r: usize)
    ensures
        r == payload_that_fits(
            send_window_left(snd_una, snd_nxt, snd_wnd, congestion_window),
            requested_payload_len,
            control_len,
        ),
{
    let available: u32 = tcp_available_send_window(
        snd_una,
        snd_nxt,
        snd_wnd,
        congestion_window,
    ).saturating_sub(control_len);
    min_usize(available as usize, requested_payload_len)
}

/// How many sequence numbers a SYN or FIN flag takes.
pub open spec fn control_sequence_len(flags: u8) -> int {
    (if flags & TCP_FLAG_SYN != 0 {
        1int
    } else {
        0
    }) + (if flags & TCP_FLAG_FIN != 0 {
        1int
    } else {
        0
    })
}

/// How much sequence space a segment takes. Lengths count modulo 2^32.
pub open spec fn sequence_space(flags: u8, payload_len: usize) -> int {
    payload_len as int % 0x1_0000_0000 + control_sequence_len(flags)
}

/// How much sequence space a segment takes. Lengths count modulo 2^32.
pub fn tcp_output_sequence_len(flags: u8, payload_len: usize) -> (r: u32)
    requires
        sequence_space(flags, payload_len) <= u32::MAX,
    ensures
        r == sequence_space(flags, payload_len),
{
    let mut control_len: u32 = 0;
    if flags & TCP_FLAG_SYN != 0 {
        control_len = control_len + 1;
    }
    if flags & TCP_FLAG_FIN != 0 {
        control_len = control_len + 1;
    }
    (payload_len as u64 % 0x1_0000_0000) as u32 + control_len
}

pub fn tcp_output_next_sequence(sequence: u32, sequence_len: u32) -> (r: u32)
    ensures
        r == (TcpSeq { value: sequence }).spec_advance(sequence_len).value,
{
    TcpSeq::new(sequence).advance(sequence_len).raw()
}

fn tcp_inflight_sequence_len(snd_una: u32, snd_nxt: u32) -> (r: u32)
    ensures
        r == congestion_control::distance_between(snd_una, snd_nxt),
{
    if snd_una != 0 && snd_nxt != 0 {
        TcpSeq::new(snd_una).distance_to(TcpSeq::new(snd_nxt))
    } else {
        0
    }
}

} // verus!
