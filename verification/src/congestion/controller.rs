//! The interface between loss recovery and a congestion control algorithm.
use vstd::prelude::*;

use super::types::{AckedPacket, CongestionMetrics, LostPacket, PacketNumber, RttSample};
use crate::time::{Duration, Instant};

verus! {

/// A congestion control algorithm as a deterministic state machine.
///
/// Each `after_*` function names the state that the event of the same name
/// leads to. An algorithm keeps its own `well_formed` across every event.
pub trait CongestionController: Sized + Clone + core::fmt::Debug + Send + Sync + 'static {
    /// What holds of the state between any two events.
    spec fn well_formed(&self) -> bool;

    /// The state for a path that carries datagrams of `max_datagram_size`.
    spec fn initial(max_datagram_size: u32) -> Self;

    spec fn spec_metrics(&self) -> CongestionMetrics;

    spec fn spec_max_datagram_size(&self) -> u32;

    spec fn spec_next_send_delay(&self, pending_bytes: u32) -> Option<Duration>;

    spec fn after_packet_sent(
        self,
        packet_number: PacketNumber,
        bytes_sent: u32,
        bytes_in_flight: u32,
        now: Instant,
    ) -> Self;

    spec fn after_ack(
        self,
        now: Instant,
        acked: AckedPacket,
        rtt: RttSample,
        bytes_in_flight: u32,
    ) -> Self;

    spec fn after_end_acks(
        self,
        now: Instant,
        bytes_in_flight: u32,
        app_limited: bool,
        largest_acked_packet: PacketNumber,
    ) -> Self;

    spec fn after_loss(self, now: Instant, lost: LostPacket, persistent_congestion: bool) -> Self;

    spec fn after_mtu_update(self, max_datagram_size: u32) -> Self;

    fn new(max_datagram_size: u32) -> (r: Self)
        ensures
            r == Self::initial(max_datagram_size),
            r.well_formed(),
    ;

    fn metrics(&self) -> (r: CongestionMetrics)
        requires
            self.well_formed(),
        ensures
            r == self.spec_metrics(),
    ;

    fn max_datagram_size(&self) -> (r: u32)
        requires
            self.well_formed(),
        ensures
            r == self.spec_max_datagram_size(),
    ;

    fn congestion_window(&self) -> (r: u32)
        requires
            self.well_formed(),
        ensures
            r == self.spec_metrics().congestion_window,
    ;

    fn pacing_rate_bytes_per_second(&self) -> (r: Option<u64>)
        requires
            self.well_formed(),
        ensures
            r == self.spec_metrics().pacing_rate_bytes_per_second,
    ;

    fn delivered(&self) -> (r: u64)
        requires
            self.well_formed(),
        ensures
            r == self.spec_metrics().delivered,
    ;

    fn min_rtt(&self) -> (r: Option<Duration>)
        requires
            self.well_formed(),
        ensures
            r == self.spec_metrics().min_rtt,
    ;

    fn max_bandwidth_bytes_per_second(&self) -> (r: u64)
        requires
            self.well_formed(),
        ensures
            r == self.spec_metrics().max_bandwidth_bytes_per_second,
    ;

    fn on_packet_sent(
        &mut self,
        packet_number: PacketNumber,
        bytes_sent: u32,
        bytes_in_flight: u32,
        now: Instant,
    )
        requires
            old(self).well_formed(),
        ensures
            *final(self) == old(self).after_packet_sent(
                packet_number,
                bytes_sent,
                bytes_in_flight,
                now,
            ),
            final(self).well_formed(),
    ;

    fn on_ack(&mut self, now: Instant, acked: AckedPacket, rtt: RttSample, bytes_in_flight: u32)
        requires
            old(self).well_formed(),
        ensures
            *final(self) == old(self).after_ack(now, acked, rtt, bytes_in_flight),
            final(self).well_formed(),
    ;

    fn on_end_acks(
        &mut self,
        now: Instant,
        bytes_in_flight: u32,
        app_limited: bool,
        largest_acked_packet: PacketNumber,
    )
        requires
            old(self).well_formed(),
        ensures
            *final(self) == old(self).after_end_acks(
                now,
                bytes_in_flight,
                app_limited,
                largest_acked_packet,
            ),
            final(self).well_formed(),
    ;

    fn on_loss(&mut self, now: Instant, lost: LostPacket, persistent_congestion: bool)
        requires
            old(self).well_formed(),
        ensures
            *final(self) == old(self).after_loss(now, lost, persistent_congestion),
            final(self).well_formed(),
    ;

    fn on_mtu_update(&mut self, max_datagram_size: u32)
        requires
            old(self).well_formed(),
        ensures
            *final(self) == old(self).after_mtu_update(max_datagram_size),
            final(self).well_formed(),
    ;

    fn next_send_delay(&self, pending_bytes: u32) -> (r: Option<Duration>)
        requires
            self.well_formed(),
        ensures
            r == self.spec_next_send_delay(pending_bytes),
    ;
}

} // verus!
