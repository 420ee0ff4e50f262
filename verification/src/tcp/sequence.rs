//! TCP sequence numbers: a 32-bit circle compared by signed distance.
use vstd::prelude::*;

verus! {

/// The size of the sequence space.
pub const SEQUENCE_SPACE: u64 = 0x1_0000_0000;

/// Half of the sequence space: how far apart two numbers may be compared.
pub const HALF_SEQUENCE_SPACE: u32 = 0x8000_0000;

/// How far one must go forward from `from` to reach `to` on the circle.
pub open spec fn forward_distance(from: u32, to: u32) -> int {
    if to >= from {
        to - from
    } else {
        to - from + SEQUENCE_SPACE
    }
}

/// The signed distance from `b` to `a`, in `[-2^31, 2^31)`.
pub open spec fn signed_distance(a: u32, b: u32) -> int {
    let forward = forward_distance(b, a);
    if forward < HALF_SEQUENCE_SPACE {
        forward
    } else {
        forward - SEQUENCE_SPACE
    }
}

/// A position in the sequence space.
#[derive(Clone, Copy, Debug, PartialEq, Eq, Structural, Hash)]
pub struct TcpSeq {
    pub value: u32,
}

impl TcpSeq {
    pub open spec fn spec_distance_to(self, other: TcpSeq) -> u32 {
        forward_distance(self.value, other.value) as u32
    }

    pub open spec fn spec_advance(self, len: u32) -> TcpSeq {
        TcpSeq {
            value: (if self.value + len < SEQUENCE_SPACE {
                self.value + len
            } else {
                self.value + len - SEQUENCE_SPACE
            }) as u32,
        }
    }

    /// `self` lies before `other`.
    pub open spec fn before(self, other: TcpSeq) -> bool {
        signed_distance(self.value, other.value) < 0
    }

    /// `self` lies after `other`.
    pub open spec fn after(self, other: TcpSeq) -> bool {
        signed_distance(self.value, other.value) > 0
    }

    pub open spec fn at_or_before(self, other: TcpSeq) -> bool {
        !self.after(other)
    }

    pub open spec fn at_or_after(self, other: TcpSeq) -> bool {
        !self.before(other)
    }

    pub open spec fn spec_later(self, other: TcpSeq) -> TcpSeq {
        if self.after(other) {
            self
        } else {
            other
        }
    }

    pub open spec fn spec_earlier(self, other: TcpSeq) -> TcpSeq {
        if self.after(other) {
            other
        } else {
            self
        }
    }

    pub fn new(value: u32) -> (r: TcpSeq)
        ensures
            r.value == value,
    {
        TcpSeq { value }
    }

    pub fn raw(self) -> (r: u32)
        ensures
            r == self.value,
    {
        self.value
    }

    /// The position `len` further on.
    pub fn advance(self, len: u32) -> (r: TcpSeq)
        ensures
            r == self.spec_advance(len),
    {
        TcpSeq { value: self.value.wrapping_add(len) }
    }

    /// The forward distance from here to `other`.
    pub fn distance_to(self, other: TcpSeq) -> (r: u32)
        ensures
            r == self.spec_distance_to(other),
    {
        other.value.wrapping_sub(self.value)
    }

    pub fn is_before(self, other: TcpSeq) -> (r: bool)
        ensures
            r == self.before(other),
    {
        self.value.wrapping_sub(other.value) >= HALF_SEQUENCE_SPACE
    }

    pub fn is_after(self, other: TcpSeq) -> (r: bool)
        ensures
            r == self.after(other),
    {
        let forward: u32 = self.value.wrapping_sub(other.value);
        forward != 0 && forward < HALF_SEQUENCE_SPACE
    }

    pub fn is_at_or_before(self, other: TcpSeq) -> (r: bool)
        ensures
            r == self.at_or_before(other),
    {
        !self.is_after(other)
    }

    pub fn is_at_or_after(self, other: TcpSeq) -> (r: bool)
        ensures
            r == self.at_or_after(other),
    {
        !self.is_before(other)
    }

    /// The later of two positions.
    pub fn later(self, other: TcpSeq) -> (r: TcpSeq)
        ensures
            r == self.spec_later(other),
    {
        if self.is_after(other) {
            self
        } else {
            other
        }
    }

    /// The earlier of two positions.
    pub fn earlier(self, other: TcpSeq) -> (r: TcpSeq)
        ensures
            r == self.spec_earlier(other),
    {
        if self.is_after(other) {
            other
        } else {
            self
        }
    }
}

impl From<u32> for TcpSeq {
    fn from(value: u32) -> (r: TcpSeq) {
        TcpSeq { value }
    }
}

impl vstd::std_specs::convert::FromSpecImpl<u32> for TcpSeq {
    open spec fn obeys_from_spec() -> bool {
        true
    }

    open spec fn from_spec(value: u32) -> TcpSeq {
        TcpSeq { value }
    }
}

impl From<TcpSeq> for u32 {
    fn from(seq: TcpSeq) -> (r: u32) {
        seq.value
    }
}

impl vstd::std_specs::convert::FromSpecImpl<TcpSeq> for u32 {
    open spec fn obeys_from_spec() -> bool {
        true
    }

    open spec fn from_spec(seq: TcpSeq) -> u32 {
        seq.value
    }
}

/// Going forward by `len` and measuring the way gives `len` back.
pub proof fn advance_then_distance(from: TcpSeq, len: u32)
    ensures
        from.spec_distance_to(from.spec_advance(len)) == len,
{
}

/// Going the measured way arrives at the position measured to.
pub proof fn distance_then_advance(from: TcpSeq, to: TcpSeq)
    ensures
        from.spec_advance(from.spec_distance_to(to)) == to,
{
}

/// Seen from a common base, positions less than half the space ahead of it are
/// ordered as their distances from the base are, across the wrap of the space.
pub proof fn order_within_half_space(base: TcpSeq, a: TcpSeq, b: TcpSeq)
    requires
        base.spec_distance_to(a) < HALF_SEQUENCE_SPACE,
        base.spec_distance_to(b) < HALF_SEQUENCE_SPACE,
    ensures
        a.before(b) <==> base.spec_distance_to(a) < base.spec_distance_to(b),
        a.after(b) <==> base.spec_distance_to(a) > base.spec_distance_to(b),
        a == b <==> base.spec_distance_to(a) == base.spec_distance_to(b),
{
}

/// Positions count modulo 2^32, and of two that lie less than half of that apart the
/// one that is reached by going on lies after the other. Exactly half the space apart
/// each lies before the other.
pub proof fn positions_wrap(a: TcpSeq, b: TcpSeq, len: u32)
    ensures
        a.spec_advance(len).value == (a.value + len) % 0x1_0000_0000,
        a.spec_distance_to(b) == (b.value - a.value) % 0x1_0000_0000,
        a.before(b) <==> 0 < (b.value - a.value) % 0x1_0000_0000 <= 0x8000_0000,
        a.after(b) <==> 0x8000_0000 < (b.value - a.value) % 0x1_0000_0000,
        a.at_or_before(b) <==> (b.value - a.value) % 0x1_0000_0000 <= 0x8000_0000,
        a.at_or_after(b) <==> a == b || 0x8000_0000 < (b.value - a.value) % 0x1_0000_0000,
{
}

} // verus!
