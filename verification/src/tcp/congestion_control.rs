//! What a connection observes, turned into congestion control events.
use vstd::prelude::*;

use crate::tcp::congestion::{
    TcpCongestionAckSample, TcpCongestionControl, TcpCongestionState, TCP_BBR_PROBE_RTT_NANOS,
};
use crate::tcp::sequence;
use crate::tcp::sequence::TcpSeq;
use crate::time::{Duration, Instant};

verus! {

/// An acknowledgment that was accepted.
#[derive(Clone, Copy, Debug, PartialEq, Eq, Structural)]
pub struct TcpCongestionAckObservation {
    pub accepted_acknowledgment: u32,
    pub bytes_acked: u32,
    pub rtt: Duration,
    pub now: Instant,
}

/// Bytes that were sent.
#[derive(Clone, Copy, Debug, PartialEq, Eq, Structural)]
pub struct TcpCongestionSendObservation {
    pub bytes_sent: u32,
    pub bytes_in_flight: u32,
    pub now: Instant,
}

/// Bytes that were lost.
#[derive(Clone, Copy, Debug, PartialEq, Eq, Structural)]
pub struct TcpCongestionLossObservation {
    pub bytes_lost: u32,
}

/// What congestion control reads of a connection: how far it has sent.
#[derive(Clone, Copy, Debug, PartialEq, Eq, Structural)]
pub struct TcpConnectionState {
    pub snd_nxt: u32,
    pub congestion: TcpCongestionState,
}

/// The stage that feeds observations to a connection's congestion control.
#[derive(Clone, Copy, Debug, PartialEq, Eq, Structural)]
pub struct TcpCongestionControlNode;

/// The distance between two sequence numbers; zero while either is unset.
pub open spec fn distance_between(start: u32, end: u32) -> u32 {
    if start != 0 && end != 0 {
        sequence::forward_distance(start, end) as u32
    } else {
        0
    }
}

pub fn tcp_seq_distance(start: u32, end: u32) -> (r: u32)
    ensures
        r == distance_between(start, end),
{
    if start != 0 && end != 0 {
        TcpSeq::new(start).distance_to(TcpSeq::new(end))
    } else {
        0
    }
}

impl TcpConnectionState {
    /// The connection after its control heard of an acknowledgment.
    pub open spec fn ack_observed(self, observation: TcpCongestionAckObservation) -> Self {
        TcpConnectionState {
            congestion: self.congestion.after_ack(
                TcpCongestionAckSample {
                    bytes_acked: observation.bytes_acked,
                    rtt: observation.rtt,
                    now: observation.now,
                    bytes_in_flight: distance_between(
                        observation.accepted_acknowledgment,
                        self.snd_nxt,
                    ),
                },
            ),
            ..self
        }
    }

    /// The connection after its control heard of a send.
    pub open spec fn send_observed(self, observation: TcpCongestionSendObservation) -> Self {
        TcpConnectionState {
            congestion: self.congestion.after_packet_sent(
                observation.bytes_sent,
                observation.bytes_in_flight,
            ),
            ..self
        }
    }

    /// The connection after its control heard of a loss.
    pub open spec fn loss_observed(self, observation: TcpCongestionLossObservation) -> Self {
        TcpConnectionState {
            congestion: self.congestion.after_loss(observation.bytes_lost),
            ..self
        }
    }
}

impl TcpCongestionControlNode {
    pub fn observe_ack(
        connection: &mut TcpConnectionState,
        observation: TcpCongestionAckObservation,
    )
        requires
            old(connection).congestion.well_formed(),
            observation.now.nanos + TCP_BBR_PROBE_RTT_NANOS <= u128::MAX,
        ensures
            final(connection).congestion.well_formed(),
            *final(connection) == old(connection).ack_observed(observation),
    {
        let bytes_in_flight: u32 = tcp_seq_distance(
            observation.accepted_acknowledgment,
            connection.snd_nxt,
        );
        connection.congestion.on_ack(
            TcpCongestionAckSample {
                bytes_acked: observation.bytes_acked,
                rtt: observation.rtt,
                now: observation.now,
                bytes_in_flight,
            },
        );
    }

    pub fn observe_send(
        connection: &mut TcpConnectionState,
        observation: TcpCongestionSendObservation,
    )
        requires
            old(connection).congestion.well_formed(),
        ensures
            final(connection).congestion.well_formed(),
            *final(connection) == old(connection).send_observed(observation),
    {
        connection.congestion.on_packet_sent(observation.bytes_sent, observation.bytes_in_flight);
    }

    pub fn observe_loss(
        connection: &mut TcpConnectionState,
        observation: TcpCongestionLossObservation,
    )
        requires
            old(connection).congestion.well_formed(),
        ensures
            final(connection).congestion.well_formed(),
            *final(connection) == old(connection).loss_observed(observation),
    {
        connection.congestion.on_loss(observation.bytes_lost);
    }
}

/// What the control hears of: the acknowledged bytes with what is in flight behind
/// them, the sent bytes, and the lost ones. Nothing else of the connection changes.
pub proof fn control_hears_what_is_observed(
    connection: TcpConnectionState,
    acked: TcpCongestionAckObservation,
    sent: TcpCongestionSendObservation,
    lost: TcpCongestionLossObservation,
)
    requires
        acked.accepted_acknowledgment != 0,
        connection.snd_nxt != 0,
    ensures
        ({
            let state = connection.congestion.bbr();
            let sample = TcpCongestionAckSample {
                bytes_acked: acked.bytes_acked,
                rtt: acked.rtt,
                now: acked.now,
                bytes_in_flight: (TcpSeq {
                    value: acked.accepted_acknowledgment,
                }).spec_distance_to(TcpSeq { value: connection.snd_nxt }),
            };
            &&& connection.ack_observed(acked).congestion.bbr() == state.after_ack(sample)
            &&& connection.send_observed(sent).congestion.bbr() == state.after_packet_sent(
                sent.bytes_sent,
                sent.bytes_in_flight,
            )
            &&& connection.loss_observed(lost).congestion.bbr() == state.after_loss(
                lost.bytes_lost,
            )
            &&& connection.ack_observed(acked).snd_nxt == connection.snd_nxt
            &&& connection.send_observed(sent).snd_nxt == connection.snd_nxt
            &&& connection.loss_observed(lost).snd_nxt == connection.snd_nxt
        }),
{
}

} // verus!
