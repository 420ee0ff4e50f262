//! The timestamp option: our own clock, the echo of the peer's, and the check
//! against old segments.
use vstd::prelude::*;

use crate::tcp::sequence::TcpSeq;
use crate::tcp::types::TcpTimestampOption;
use crate::time::{Duration, Instant, NANOS_PER_MILLI};

verus! {

/// How long a peer's timestamp stays binding: 24 days, in nanoseconds.
pub const TCP_PAWS_IDLE: u128 = 2_073_600_000_000_000;

/// The peer's latest timestamp and our own timestamp clock.
#[derive(Clone, Copy, Debug, PartialEq, Eq, Structural)]
pub struct TcpTimestampState {
    pub recent_remote: Option<u32>,
    pub recent_remote_at: Option<Instant>,
    pub local_origin: Option<Instant>,
    pub last_local: u32,
}

/// `value`, or one where it is zero.
pub open spec fn nonzero(value: u32) -> u32 {
    if value == 0 {
        1
    } else {
        value
    }
}

/// The time that an echo of `tsecr` at a local clock of `local` took, at least
/// one millisecond.
pub open spec fn echo_span(local: u32, tsecr: u32) -> Duration {
    Duration {
        nanos: (nonzero((TcpSeq { value: tsecr }).spec_distance_to(TcpSeq { value: local }))
            * NANOS_PER_MILLI) as u128,
    }
}

impl TcpTimestampState {
    pub open spec fn initial() -> Self {
        TcpTimestampState {
            recent_remote: None,
            recent_remote_at: None,
            local_origin: None,
            last_local: 0,
        }
    }

    /// The instant that our timestamps count from; the first use sets it.
    pub open spec fn origin(self, now: Instant) -> Instant {
        match self.local_origin {
            Some(origin) => origin,
            None => now,
        }
    }

    pub open spec fn with_origin(self, now: Instant) -> Self {
        TcpTimestampState { local_origin: Some(self.origin(now)), ..self }
    }

    /// The milliseconds since the origin modulo 2^32, never zero.
    pub open spec fn clock(self, now: Instant) -> u32 {
        nonzero(
            ((now.spec_since(self.origin(now)).nanos as int / NANOS_PER_MILLI as int)
                % 0x1_0000_0000) as u32,
        )
    }

    /// Our timestamp at `now`: the clock, or where that has not moved past the
    /// last timestamp, the next nonzero number after it.
    pub open spec fn local_value(self, now: Instant) -> u32 {
        if (TcpSeq { value: self.clock(now) }).after(TcpSeq { value: self.last_local }) {
            self.clock(now)
        } else {
            nonzero((TcpSeq { value: self.last_local }).spec_advance(1).value)
        }
    }

    /// The state once a timestamp was sent.
    pub open spec fn stamped(self, now: Instant) -> Self {
        TcpTimestampState { last_local: self.local_value(now), ..self.with_origin(now) }
    }

    /// The option of a segment sent at `now`.
    pub open spec fn stamp(self, now: Instant) -> TcpTimestampOption {
        TcpTimestampOption {
            tsval: self.local_value(now),
            tsecr: match self.recent_remote {
                Some(recent) => recent,
                None => 0,
            },
        }
    }

    /// The round trip that an echo tells of.
    pub open spec fn echo_sample(self, tsecr: u32, now: Instant) -> Option<Duration> {
        if tsecr == 0 || (TcpSeq { value: tsecr }).after(
            TcpSeq { value: self.local_value(now) },
        ) {
            None
        } else {
            Some(echo_span(self.local_value(now), tsecr))
        }
    }

    pub open spec fn echo_observed(self, tsecr: u32, now: Instant) -> Self {
        if tsecr == 0 {
            self
        } else {
            self.with_origin(now)
        }
    }

    /// `tsval` is older than the peer's latest timestamp.
    pub open spec fn stale(self, tsval: u32) -> bool {
        self.recent_remote matches Some(recent) && (TcpSeq { value: recent }).after(
            TcpSeq { value: tsval },
        )
    }

    /// The peer's latest timestamp is too old to be binding.
    pub open spec fn idle(self, now: Instant) -> bool {
        self.recent_remote_at matches Some(at) && now.spec_since(at).nanos > TCP_PAWS_IDLE
    }

    /// A segment with `tsval` passes the check against old segments.
    pub open spec fn passes(self, tsval: u32, now: Instant) -> bool {
        !self.stale(tsval) || self.idle(now)
    }

    /// The state after a segment with `tsval`; it is kept where the segment
    /// covers the next expected byte, or replaces a timestamp that went idle.
    pub open spec fn inbound(self, tsval: u32, current: bool, now: Instant) -> Self {
        if self.passes(tsval, now) && (current || self.stale(tsval)) {
            TcpTimestampState {
                recent_remote: Some(tsval),
                recent_remote_at: Some(now),
                ..self
            }
        } else {
            self
        }
    }

    pub fn new() -> (r: Self)
        ensures
            r == TcpTimestampState::initial(),
    {
        TcpTimestampState {
            recent_remote: None,
            recent_remote_at: None,
            local_origin: None,
            last_local: 0,
        }
    }

    pub fn local_timestamp_value(&mut self, now: Instant) -> (r: u32)
        ensures
            *final(self) == old(self).with_origin(now),
            r == old(self).local_value(now),
    {
        let origin = match self.local_origin {
            Some(origin) => origin,
            None => now,
        };
        self.local_origin = Some(origin);
        let millis: u128 = now.saturating_duration_since(origin).nanos / NANOS_PER_MILLI;
        let mut tsval: u32 = (millis % 0x1_0000_0000) as u32;
        if tsval == 0 {
            tsval = 1;
        }
        if TcpSeq::new(tsval).is_at_or_before(TcpSeq::new(self.last_local)) {
            tsval = self.last_local.wrapping_add(1);
            if tsval == 0 {
                tsval = 1;
            }
        }
        tsval
    }

    /// The option for a segment that is sent now.
    pub fn next_stamp(&mut self, now: Instant) -> (r: TcpTimestampOption)
        ensures
            *final(self) == old(self).stamped(now),
            r == old(self).stamp(now),
    {
        self.last_local = self.local_timestamp_value(now);
        TcpTimestampOption {
            tsval: self.last_local,
            tsecr: match self.recent_remote {
                Some(recent) => recent,
                None => 0,
            },
        }
    }

    /// The round trip that the echo of `tsecr` tells of.
    pub fn observe_echo(&mut self, tsecr: u32, now: Instant) -> (r: Option<Duration>)
        ensures
            *final(self) == old(self).echo_observed(tsecr, now),
            r == old(self).echo_sample(tsecr, now),
    {
        if tsecr == 0 {
            return None;
        }
        let local_now: u32 = self.local_timestamp_value(now);
        if TcpSeq::new(tsecr).is_after(TcpSeq::new(local_now)) {
            return None;
        }
        let mut millis: u32 = TcpSeq::new(tsecr).distance_to(TcpSeq::new(local_now));
        if millis == 0 {
            millis = 1;
        }
        Some(Duration::from_millis(millis as u64))
    }

    /// Checks and takes in the timestamp of a segment.
    pub fn observe_inbound(&mut self, tsval: u32, current: bool, now: Instant) -> (r: bool)
        ensures
            *final(self) == old(self).inbound(tsval, current, now),
            r == old(self).passes(tsval, now),
    {
        let stale = match self.recent_remote {
            Some(recent) => TcpSeq::new(recent).is_after(TcpSeq::new(tsval)),
            None => false,
        };
        if stale {
            let idle = match self.recent_remote_at {
                Some(at) => now.saturating_duration_since(at).nanos > TCP_PAWS_IDLE,
                None => false,
            };
            if !idle {
                return false;
            }
        }
        if stale || current {
            self.recent_remote = Some(tsval);
            self.recent_remote_at = Some(now);
        }
        true
    }
}

/// Our timestamps go strictly forward and are never zero.
pub proof fn local_timestamps_advance(state: TcpTimestampState, now: Instant)
    ensures
        (TcpSeq { value: state.stamped(now).last_local }).after(
            TcpSeq { value: state.last_local },
        ),
        state.stamp(now).tsval != 0,
{
}

/// A timestamp that was taken in makes every older one fail until the idle time
/// has passed, and none fail after it.
pub proof fn old_segments_are_refused(
    state: TcpTimestampState,
    tsval: u32,
    older: u32,
    at: Instant,
    now: Instant,
)
    requires
        state.passes(tsval, at),
        (TcpSeq { value: tsval }).after(TcpSeq { value: older }),
    ensures
        state.inbound(tsval, true, at).passes(older, now) == (now.spec_since(at).nanos
            > TCP_PAWS_IDLE),
{
}

/// A timestamp that was taken in is echoed by the next segment.
pub proof fn taken_timestamp_is_echoed(
    state: TcpTimestampState,
    tsval: u32,
    at: Instant,
    now: Instant,
)
    requires
        state.passes(tsval, at),
    ensures
        state.inbound(tsval, true, at).stamp(now).tsecr == tsval,
{
}

} // verus!
