//! What a congestion controller is told, and what it reports.
use vstd::prelude::*;

use crate::time::{Duration, Instant};

verus! {

pub type PacketNumber = u64;

/// One packet that the peer acknowledged.
#[derive(Clone, Copy, Debug, PartialEq, Eq, Structural)]
pub struct AckedPacket {
    pub packet_number: PacketNumber,
    pub bytes: u32,
    pub sent_at: Instant,
    pub app_limited: bool,
    pub ecn_ce_count: u64,
}

/// One packet that was declared lost.
#[derive(Clone, Copy, Debug, PartialEq, Eq, Structural)]
pub struct LostPacket {
    pub packet_number: PacketNumber,
    pub bytes: u32,
    pub sent_at: Instant,
}

/// A round-trip measurement; zero stands for "not measured".
#[derive(Clone, Copy, Debug, PartialEq, Eq, Structural)]
pub struct RttSample {
    pub latest: Duration,
    pub min: Duration,
}

/// A snapshot of what a controller currently allows and has measured.
#[derive(Clone, Copy, Debug, PartialEq, Eq, Structural)]
pub struct CongestionMetrics {
    pub congestion_window: u32,
    pub pacing_rate_bytes_per_second: Option<u64>,
    pub delivered: u64,
    pub max_bandwidth_bytes_per_second: u64,
    pub min_rtt: Option<Duration>,
}

} // verus!
