//! What a connection that is not established, or no longer, makes of a segment.
use vstd::prelude::*;

use crate::congestion::CongestionController;
use crate::tcp::connection_model;
use crate::tcp::connection_model::TcpConnection;
use crate::tcp::established;
use crate::tcp::types::{TcpPacket, TcpSegment, TcpState};
use crate::time::Instant;

verus! {

/// Where the stage for opening and closing connections sends a buffer.
#[derive(Clone, Copy, Debug, PartialEq, Eq, Structural)]
pub enum TcpRcvProcessNext {
    Output,
    Drop,
}

impl TcpRcvProcessNext {
    /// The place of the next stage among those that can follow.
    pub open spec fn spec_slot(self) -> u16 {
        match self {
            TcpRcvProcessNext::Output => 0,
            TcpRcvProcessNext::Drop => 1,
        }
    }

    pub fn slot(self) -> (r: u16)
        ensures
            r == self.spec_slot(),
    {
        match self {
            TcpRcvProcessNext::Output => 0,
            TcpRcvProcessNext::Drop => 1,
        }
    }
}

/// What a segment asks for, besides what it changed in its connection.
#[derive(Clone, Copy, Debug)]
pub struct TcpRcvProcessArrival {
    /// The answer.
    pub control: Option<TcpSegment>,
    /// The left edge moved: there may be room to send.
    pub ack_advanced: bool,
    /// How much of what we sent the session can let go of.
    pub acked_tx_len: u32,
    /// The connection is established now.
    pub established: bool,
    /// The segment completed the handshake and brought payload, which is the
    /// next that the session is to get.
    pub established_with_payload: bool,
}

proof fn lemma_final_ack_keeps_syn_payload<C: CongestionController>(
    connection: TcpConnection<C>,
    packet: TcpPacket,
    now: Instant,
)
    ensures
        connection.final_ack(packet, now).0.fast_open_syn_payload_len
            == connection.fast_open_syn_payload_len,
{
}

#[verifier::spinoff_prover]
#[verifier::rlimit(40)]
proof fn lemma_close_step_keeps_syn_payload<C: CongestionController>(
    connection: TcpConnection<C>,
    packet: TcpPacket,
    now: Instant,
)
    ensures
        connection.close_step(packet, now).0.fast_open_syn_payload_len
            == connection.fast_open_syn_payload_len,
{
    lemma_final_ack_keeps_syn_payload(connection, packet, now);
}

/// A segment leaves the payload of our SYN to be let go of by its own count.
#[verifier::spinoff_prover]
#[verifier::rlimit(40)]
proof fn lemma_syn_payload_stays<C: CongestionController>(
    before: TcpConnection<C>,
    after: TcpConnection<C>,
    reply: Option<TcpSegment>,
    packet: TcpPacket,
    now: Instant,
)
    requires
        before.close_side_received(after, reply, packet, now),
    ensures
        established::before_release(before, after) == after,
{
    let observed = before.timestamp_taken(packet, now).ecn_observed(packet);
    let moved = observed.packet_acknowledged(after.recovery, after.congestion, packet, now);
    lemma_close_step_keeps_syn_payload(moved, packet, now);
}

/// `after` and `arrival` are what a segment makes of a connection that is not
/// established, or no longer.
pub open spec fn processed<C: CongestionController>(
    before: TcpConnection<C>,
    after: TcpConnection<C>,
    arrival: TcpRcvProcessArrival,
    packet: TcpPacket,
    now: Instant,
) -> bool {
    let middle = established::before_release(before, after);
    &&& before.close_side_received(middle, arrival.control, packet, now)
    &&& after == established::released(middle, arrival.acked_tx_len)
    &&& arrival.acked_tx_len == middle.payload_acked(before.snd_una)
    &&& arrival.ack_advanced == (middle.snd_una != before.snd_una)
    &&& arrival.established == (middle.state == TcpState::Established)
    &&& arrival.established_with_payload == (before.state == TcpState::SynRcvd
        && arrival.established && packet.payload_len != 0)
}

/// Takes in a segment of a connection that is not established, or no longer.
#[verifier::spinoff_prover]
#[verifier::rlimit(40)]
pub fn tcp_rcv_process_receive<C: CongestionController>(
    connection: &mut TcpConnection<C>,
    packet: &TcpPacket,
    now: Instant,
) -> (r: TcpRcvProcessArrival)
    requires
        old(connection).well_formed(),
        connection_model::readable(now),
    ensures
        final(connection).well_formed(),
        processed(*old(connection), *final(connection), r, *packet, now),
{
    let previous_state = connection.state();
    let previous_snd_una: u32 = connection.snd_una();
    let control = connection.receive_close_side(packet, now);
    let ghost middle = *connection;
    let established: bool = connection.state() == TcpState::Established;
    let ack_advanced: bool = connection.snd_una() != previous_snd_una;
    let acked_tx_len: u32 = connection.take_acked_tx_len(previous_snd_una);
    proof {
        lemma_syn_payload_stays(*old(connection), middle, control, *packet, now);
        assert(established::before_release(*old(connection), *connection) == middle);
    }
    TcpRcvProcessArrival {
        control,
        ack_advanced,
        acked_tx_len,
        established,
        established_with_payload: previous_state == TcpState::SynRcvd && established
            && packet.payload_len != 0,
    }
}

/// The buffers that a stage passes on, gathered up to a frame's capacity.
#[derive(Clone, Debug)]
pub struct LocalBatch {
    pub capacity: usize,
    pub nexts: Vec<u16>,
    pub indices: Vec<u32>,
}

/// A full frame: for each buffer the slot of its next stage.
#[derive(Clone, Debug)]
pub struct LocalFrame {
    pub nexts: Vec<u16>,
    pub indices: Vec<u32>,
}

impl LocalBatch {
    /// Every buffer has a next stage, and a frame has room for all of them.
    pub open spec fn well_formed(self) -> bool {
        &&& 0 < self.capacity
        &&& self.nexts@.len() == self.indices@.len()
        &&& self.nexts@.len() <= self.capacity
    }

    pub fn new(capacity: usize) -> (r: LocalBatch)
        requires
            0 < capacity,
        ensures
            r.well_formed(),
            r.capacity == capacity,
            r.nexts@ == Seq::<u16>::empty(),
            r.indices@ == Seq::<u32>::empty(),
    {
        LocalBatch { capacity, nexts: Vec::new(), indices: Vec::new() }
    }

    /// Passes a buffer on. Where the frame is full it is handed out first.
    pub fn emit(&mut self, next: TcpRcvProcessNext, index: u32) -> (r: Option<LocalFrame>)
        requires
            old(self).well_formed(),
        ensures
            final(self).well_formed(),
            final(self).capacity == old(self).capacity,
            (r is Some) == (old(self).nexts@.len() == old(self).capacity),
            match r {
                Some(frame) => {
                    &&& frame.nexts@ == old(self).nexts@
                    &&& frame.indices@ == old(self).indices@
                    &&& final(self).nexts@ == seq![next.spec_slot()]
                    &&& final(self).indices@ == seq![index]
                },
                None => {
                    &&& final(self).nexts@ == old(self).nexts@.push(next.spec_slot())
                    &&& final(self).indices@ == old(self).indices@.push(index)
                },
            },
    {
        let full = if self.nexts.len() == self.capacity {
            self.take_frame()
        } else {
            None
        };
        self.nexts.push(next.slot());
        self.indices.push(index);
        proof {
            if full is Some {
                assert(self.nexts@ =~= seq![next.spec_slot()]);
                assert(self.indices@ =~= seq![index]);
            }
        }
        full
    }

    /// Hands out what was gathered, if anything was.
    pub fn take_frame(&mut self) -> (r: Option<LocalFrame>)
        requires
            old(self).well_formed(),
        ensures
            final(self).well_formed(),
            final(self).capacity == old(self).capacity,
            final(self).nexts@ == Seq::<u16>::empty(),
            final(self).indices@ == Seq::<u32>::empty(),
            (r is Some) == (old(self).nexts@.len() != 0),
            r is Some ==> r->0.nexts@ == old(self).nexts@ && r->0.indices@ == old(self).indices@,
    {
        if self.nexts.len() == 0 {
            assert(self.nexts@ =~= Seq::<u16>::empty());
            assert(self.indices@ =~= Seq::<u32>::empty());
            return None;
        }
        let mut nexts: Vec<u16> = Vec::new();
        let mut indices: Vec<u32> = Vec::new();
        std::mem::swap(&mut nexts, &mut self.nexts);
        std::mem::swap(&mut indices, &mut self.indices);
        Some(LocalFrame { nexts, indices })
    }
}

} // verus!
