//! The settings of the TCP service.
use vstd::prelude::*;

use crate::tcp::timestamps::TCP_PAWS_IDLE;
use crate::time::{Duration, NANOS_PER_MILLI, NANOS_PER_SEC};

verus! {

/// How retransmissions are timed.
#[derive(Clone, Copy, Debug, PartialEq, Eq, Structural)]
pub struct TcpRetransmitConfig {
    pub initial: Duration,
    pub min: Duration,
    pub max: Duration,
}

/// How idle connections are probed.
#[derive(Clone, Copy, Debug, PartialEq, Eq, Structural)]
pub struct TcpKeepaliveConfig {
    pub idle: Duration,
    pub probe_interval: Duration,
    pub probe_limit: u8,
}

/// Whether packets may be fragmented on their way.
#[derive(Clone, Copy, Debug, PartialEq, Eq, Structural)]
pub struct TcpPmtuConfig {
    pub enabled: bool,
}

/// The settings as they are configured.
#[derive(Clone, Copy, Debug, PartialEq, Eq, Structural)]
pub struct TcpConfig {
    pub mss: usize,
    pub receive_window: u32,
    pub nagle: bool,
    pub time_wait: Duration,
    pub paws_idle: Duration,
    pub retransmit: TcpRetransmitConfig,
    pub keepalive: TcpKeepaliveConfig,
    pub pmtu: TcpPmtuConfig,
}

/// The settings as connections and timers read them.
#[derive(Clone, Copy, Debug, PartialEq, Eq, Structural)]
pub struct TcpPolicy {
    pub mss: usize,
    pub receive_window: u32,
    pub nagle: bool,
    pub time_wait: Duration,
    pub paws_idle: Duration,
    pub retransmit_initial: Duration,
    pub retransmit_min: Duration,
    pub retransmit_max: Duration,
    pub keepalive_idle: Duration,
    pub keepalive_probe_interval: Duration,
    pub keepalive_probe_limit: u8,
    pub pmtu_enabled: bool,
}

impl TcpPolicy {
    pub fn from_config(tcp: &TcpConfig) -> (r: Self)
        ensures
            r == (TcpPolicy {
                mss: tcp.mss,
                receive_window: tcp.receive_window,
                nagle: tcp.nagle,
                time_wait: tcp.time_wait,
                paws_idle: tcp.paws_idle,
                retransmit_initial: tcp.retransmit.initial,
                retransmit_min: tcp.retransmit.min,
                retransmit_max: tcp.retransmit.max,
                keepalive_idle: tcp.keepalive.idle,
                keepalive_probe_interval: tcp.keepalive.probe_interval,
                keepalive_probe_limit: tcp.keepalive.probe_limit,
                pmtu_enabled: tcp.pmtu.enabled,
            }),
    {
        TcpPolicy {
            mss: tcp.mss,
            receive_window: tcp.receive_window,
            nagle: tcp.nagle,
            time_wait: tcp.time_wait,
            paws_idle: tcp.paws_idle,
            retransmit_initial: tcp.retransmit.initial,
            retransmit_min: tcp.retransmit.min,
            retransmit_max: tcp.retransmit.max,
            keepalive_idle: tcp.keepalive.idle,
            keepalive_probe_interval: tcp.keepalive.probe_interval,
            keepalive_probe_limit: tcp.keepalive.probe_limit,
            pmtu_enabled: tcp.pmtu.enabled,
        }
    }

    /// The settings of a service that nothing was configured for.
    pub fn production_defaults() -> (r: Self)
        ensures
            r.mss == 1_440,
            r.receive_window == u16::MAX,
            r.nagle,
            r.time_wait.nanos == 60 * NANOS_PER_SEC,
            r.paws_idle.nanos == TCP_PAWS_IDLE,
            r.retransmit_initial.nanos == 50 * NANOS_PER_MILLI,
            r.retransmit_min.nanos == 50 * NANOS_PER_MILLI,
            r.retransmit_max.nanos == 60 * NANOS_PER_SEC,
            r.keepalive_idle.nanos == 75 * NANOS_PER_SEC,
            r.keepalive_probe_interval.nanos == 75 * NANOS_PER_SEC,
            r.keepalive_probe_limit == 8,
            r.pmtu_enabled,
    {
        TcpPolicy {
            mss: 1_440,
            receive_window: 65_535,
            nagle: true,
            time_wait: Duration::from_secs(60),
            paws_idle: Duration::from_secs(2_073_600),
            retransmit_initial: Duration::from_millis(50),
            retransmit_min: Duration::from_millis(50),
            retransmit_max: Duration::from_secs(60),
            keepalive_idle: Duration::from_secs(75),
            keepalive_probe_interval: Duration::from_secs(75),
            keepalive_probe_limit: 8,
            pmtu_enabled: true,
        }
    }
}

} // verus!
