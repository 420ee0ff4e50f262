//! Explicit congestion notification, classic and accurate.
use vstd::prelude::*;

use crate::tcp::types::{IpEcnCodepoint, TcpNegotiatedOptions, TcpSegmentFlags};

verus! {

/// What the connection owes its peer, and what the peer reported.
#[derive(Clone, Copy, Debug, PartialEq, Eq, Structural)]
pub struct TcpEcnState {
    /// Acknowledgments echo a congestion mark.
    pub ece_ack: bool,
    /// The peer reported congestion that was not acted on yet.
    pub ecn_ce: bool,
    /// The next data segment confirms the reduction.
    pub cwr: bool,
    pub received_ce_counter: u64,
    pub pending_ce_feedback: u64,
    pub peer_ace_counter: u8,
}

/// `value + more`, or `u64::MAX` where that does not fit.
pub open spec fn counted(value: u64, more: u8) -> u64 {
    if value + more > u64::MAX {
        u64::MAX
    } else {
        (value + more) as u64
    }
}

/// The three-bit counter that the NS, CWR and ECE flags spell.
pub open spec fn spelled_counter(flags: TcpSegmentFlags) -> int {
    (if flags.ns {
        4int
    } else {
        0
    }) + (if flags.cwr {
        2int
    } else {
        0
    }) + (if flags.ece {
        1int
    } else {
        0
    })
}

/// `flags` with NS, CWR and ECE set to spell `counter`.
pub open spec fn spelling(flags: TcpSegmentFlags, counter: u64) -> TcpSegmentFlags {
    TcpSegmentFlags {
        ns: (counter as int / 4) % 2 == 1,
        cwr: (counter as int / 2) % 2 == 1,
        ece: counter as int % 2 == 1,
        ..flags
    }
}

/// How far the three-bit counter went on from `previous` to `next`.
pub open spec fn counter_step(previous: u8, next: u8) -> int {
    (next - previous) % 8
}

pub fn ace_counter(flags: TcpSegmentFlags) -> (r: u8)
    ensures
        r == spelled_counter(flags),
{
    let ns: u8 = if flags.ns {
        4
    } else {
        0
    };
    let cwr: u8 = if flags.cwr {
        2
    } else {
        0
    };
    let ece: u8 = if flags.ece {
        1
    } else {
        0
    };
    ns + cwr + ece
}

pub fn ace_flags(counter: u64) -> (r: TcpSegmentFlags)
    ensures
        r == spelling(crate::tcp::types::no_flags(), counter),
{
    let mut flags = TcpSegmentFlags::empty();
    flags.ns = (counter / 4) % 2 == 1;
    flags.cwr = (counter / 2) % 2 == 1;
    flags.ece = counter % 2 == 1;
    flags
}

pub fn ace_delta(previous: u8, next: u8) -> (r: u8)
    ensures
        r == counter_step(previous, next),
        r < 8,
{
    let difference: u8 = next.wrapping_sub(previous);
    proof {
        assert(difference & 7 == difference % 8) by (bit_vector);
    }
    difference & 7
}

impl TcpEcnState {
    pub open spec fn initial() -> Self {
        TcpEcnState {
            ece_ack: false,
            ecn_ce: false,
            cwr: false,
            received_ce_counter: 0,
            pending_ce_feedback: 0,
            peer_ace_counter: 0,
        }
    }

    /// The state after a segment on a connection with accurate feedback: the
    /// peer's counter tells how many marked packets it saw.
    pub open spec fn accurately_observed(self, flags: TcpSegmentFlags, marked: bool) -> Self {
        let step = counter_step(self.peer_ace_counter, spelled_counter(flags) as u8) as u8;
        let heard = if flags.ack {
            TcpEcnState {
                peer_ace_counter: spelled_counter(flags) as u8,
                pending_ce_feedback: counted(self.pending_ce_feedback, step),
                ecn_ce: step != 0,
                cwr: self.cwr || step != 0,
                ..self
            }
        } else {
            self
        };
        if marked {
            TcpEcnState { received_ce_counter: counted(heard.received_ce_counter, 1), ..heard }
        } else {
            heard
        }
    }

    /// The state after a segment on a connection with classic feedback.
    pub open spec fn classically_observed(
        self,
        enabled: bool,
        flags: TcpSegmentFlags,
        marked: bool,
    ) -> Self {
        let echoed = if enabled && flags.ece && flags.ack {
            TcpEcnState {
                ecn_ce: true,
                cwr: true,
                pending_ce_feedback: counted(self.pending_ce_feedback, 1),
                ..self
            }
        } else {
            self
        };
        let confirmed = if flags.cwr {
            TcpEcnState { ece_ack: false, ecn_ce: false, ..echoed }
        } else {
            echoed
        };
        if marked && enabled {
            TcpEcnState {
                received_ce_counter: counted(confirmed.received_ce_counter, 1),
                ece_ack: true,
                ..confirmed
            }
        } else {
            confirmed
        }
    }

    pub open spec fn observed(
        self,
        negotiated: TcpNegotiatedOptions,
        flags: TcpSegmentFlags,
        ip_ecn: Option<IpEcnCodepoint>,
    ) -> Self {
        let marked = ip_ecn == Some(IpEcnCodepoint::Ce);
        if negotiated.accurate_ecn {
            self.accurately_observed(flags, marked)
        } else {
            self.classically_observed(negotiated.ecn, flags, marked)
        }
    }

    /// The flags of an outgoing segment, with the feedback that it owes.
    pub open spec fn flags_out(
        self,
        negotiated: TcpNegotiatedOptions,
        flags: TcpSegmentFlags,
    ) -> TcpSegmentFlags {
        if !flags.ack {
            flags
        } else if negotiated.accurate_ecn {
            spelling(flags, self.received_ce_counter)
        } else if self.ece_ack {
            TcpSegmentFlags { ece: true, ..flags }
        } else {
            flags
        }
    }

    /// The state once the reported congestion was passed on.
    pub open spec fn feedback_passed_on(self) -> Self {
        TcpEcnState { ecn_ce: false, pending_ce_feedback: 0, ..self }
    }

    pub fn new() -> (r: Self)
        ensures
            r == TcpEcnState::initial(),
    {
        TcpEcnState {
            ece_ack: false,
            ecn_ce: false,
            cwr: false,
            received_ce_counter: 0,
            pending_ce_feedback: 0,
            peer_ace_counter: 0,
        }
    }

    pub fn observe(
        &mut self,
        negotiated: TcpNegotiatedOptions,
        flags: TcpSegmentFlags,
        ip_ecn: Option<IpEcnCodepoint>,
    )
        ensures
            *final(self) == old(self).observed(negotiated, flags, ip_ecn),
    {
        let marked = match ip_ecn {
            Some(IpEcnCodepoint::Ce) => true,
            _ => false,
        };
        if negotiated.accurate_ecn {
            self.observe_accurate(flags, marked);
            return;
        }
        if negotiated.ecn && flags.ece && flags.ack {
            self.ecn_ce = true;
            self.cwr = true;
            self.pending_ce_feedback = self.pending_ce_feedback.saturating_add(1);
        }
        if flags.cwr {
            self.ece_ack = false;
            self.ecn_ce = false;
        }
        if marked && negotiated.ecn {
            self.received_ce_counter = self.received_ce_counter.saturating_add(1);
            self.ece_ack = true;
        }
    }

    fn observe_accurate(&mut self, flags: TcpSegmentFlags, marked: bool)
        ensures
            *final(self) == old(self).accurately_observed(flags, marked),
    {
        if flags.ack {
            let next_ace: u8 = ace_counter(flags);
            let ce_delta: u8 = ace_delta(self.peer_ace_counter, next_ace);
            self.peer_ace_counter = next_ace;
            self.pending_ce_feedback = self.pending_ce_feedback.saturating_add(ce_delta as u64);
            if ce_delta != 0 {
                self.ecn_ce = true;
                self.cwr = true;
            } else {
                self.ecn_ce = false;
            }
        }
        if marked {
            self.received_ce_counter = self.received_ce_counter.saturating_add(1);
        }
    }

    pub fn output_flags(&self, negotiated: TcpNegotiatedOptions, flags: TcpSegmentFlags) -> (r:
        TcpSegmentFlags)
        ensures
            r == self.flags_out(negotiated, flags),
    {
        let mut output = flags;
        if !output.ack {
            return output;
        }
        if negotiated.accurate_ecn {
            let counter: u64 = self.received_ce_counter;
            output.ns = (counter / 4) % 2 == 1;
            output.cwr = (counter / 2) % 2 == 1;
            output.ece = counter % 2 == 1;
            return output;
        }
        if self.ece_ack {
            output.ece = true;
        }
        output
    }
}

/// The flags that spell a counter are read back as that counter modulo eight.
pub proof fn ace_round_trip(flags: TcpSegmentFlags, counter: u64)
    ensures
        spelled_counter(spelling(flags, counter)) == counter as int % 8,
{
}

/// A counter that went on by less than eight is seen to have gone on by exactly
/// that much, across the wrap of its three bits.
pub proof fn ace_step_is_exact(counter: u64, marks: u64)
    requires
        marks < 8,
        counter + marks <= u64::MAX,
    ensures
        counter_step((counter as int % 8) as u8, ((counter + marks) % 8) as u8) == marks,
{
}

/// Between two connections with accurate feedback, an acknowledgment hands over
/// how many marked packets its sender saw since the one before, if fewer than
/// eight.
pub proof fn ace_feedback_is_exact(
    receiver: TcpEcnState,
    sender: TcpEcnState,
    marks: u64,
    negotiated: TcpNegotiatedOptions,
    flags: TcpSegmentFlags,
)
    requires
        negotiated.accurate_ecn,
        flags.ack,
        marks < 8,
        receiver.received_ce_counter >= marks,
        sender.peer_ace_counter == (receiver.received_ce_counter - marks) % 8,
        sender.pending_ce_feedback + marks <= u64::MAX,
    ensures
        ({
            let after = sender.observed(
                negotiated,
                receiver.flags_out(negotiated, flags),
                None,
            );
            &&& after.pending_ce_feedback == sender.pending_ce_feedback + marks
            &&& after.ecn_ce == (marks != 0)
            &&& after.peer_ace_counter == receiver.received_ce_counter as int % 8
        }),
{
    ace_round_trip(flags, receiver.received_ce_counter);
}

/// On a connection with classic feedback a marked packet is echoed until the
/// peer confirms its reduction.
pub proof fn mark_is_echoed_until_confirmed(
    state: TcpEcnState,
    negotiated: TcpNegotiatedOptions,
    marked_flags: TcpSegmentFlags,
    plain: TcpSegmentFlags,
    confirming: TcpSegmentFlags,
    reply: TcpSegmentFlags,
)
    requires
        negotiated.ecn,
        !negotiated.accurate_ecn,
        !plain.cwr,
        confirming.cwr,
        reply.ack,
        !reply.ece,
    ensures
        ({
            let marked = state.observed(negotiated, marked_flags, Some(IpEcnCodepoint::Ce));
            let later = marked.observed(negotiated, plain, None);
            let done = later.observed(negotiated, confirming, None);
            &&& marked.flags_out(negotiated, reply).ece
            &&& later.flags_out(negotiated, reply).ece
            &&& !done.flags_out(negotiated, reply).ece
        }),
{
}

} // verus!
