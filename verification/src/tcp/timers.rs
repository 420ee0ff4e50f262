//! Which timers of a connection run and which have fired.
use vstd::prelude::*;

verus! {

pub const TCP_TIMER_RETRANSMIT: u32 = 0;

pub const TCP_TIMER_RACK: u32 = 1;

pub const TCP_TIMER_TLP: u32 = 2;

pub const TCP_TIMER_PACING: u32 = 3;

pub const TCP_TIMER_DELAYED_ACK: u32 = 4;

pub const TCP_TIMER_PERSIST: u32 = 5;

pub const TCP_TIMER_KEEP_ALIVE: u32 = 6;

pub const TCP_TIMER_TIME_WAIT: u32 = 7;

pub const TCP_TIMER_COUNT: u32 = 8;

pub const TCP_TIME_WAIT_TICKS: u64 = 120;

pub const TCP_DELAYED_ACK_TICKS: u64 = 1;

/// How many timers a mask has room for.
pub const TIMER_MASK_BITS: u32 = 16;

/// The mask that holds one timer.
pub open spec fn bit_of(timer_id: u32) -> u16 {
    1u16 << timer_id
}

/// `mask` holds the timer.
pub open spec fn holds(mask: u16, timer_id: u32) -> bool {
    mask & bit_of(timer_id) != 0
}

pub fn timer_bit(timer_id: u32) -> (r: u16)
    requires
        timer_id < TIMER_MASK_BITS,
    ensures
        r == bit_of(timer_id),
{
    1u16 << timer_id
}

pub fn timer_mask_contains(mask: u16, timer_id: u32) -> (r: bool)
    requires
        timer_id < TIMER_MASK_BITS,
    ensures
        r == holds(mask, timer_id),
{
    (mask & timer_bit(timer_id)) != 0
}

/// The timers that run, and those that fired and wait for their handler.
#[derive(Clone, Copy, Debug, PartialEq, Eq, Structural)]
pub struct TcpTimerState {
    pub active: u16,
    pub pending: u16,
}

impl TcpTimerState {
    pub open spec fn idle() -> Self {
        TcpTimerState { active: 0, pending: 0 }
    }

    pub open spec fn started(self, timer_id: u32) -> Self {
        TcpTimerState { active: self.active | bit_of(timer_id), ..self }
    }

    pub open spec fn stopped(self, timer_id: u32) -> Self {
        TcpTimerState {
            active: self.active & !bit_of(timer_id),
            pending: self.pending & !bit_of(timer_id),
        }
    }

    /// Started or stopped, as `on` says.
    pub open spec fn switched(self, timer_id: u32, on: bool) -> Self {
        if on {
            self.started(timer_id)
        } else {
            self.stopped(timer_id)
        }
    }

    pub open spec fn fired(self, timer_id: u32) -> Self {
        TcpTimerState {
            active: self.active & !bit_of(timer_id),
            pending: self.pending | bit_of(timer_id),
        }
    }

    /// The timer's handler has been picked up.
    pub open spec fn dispatched(self, timer_id: u32) -> Self {
        TcpTimerState { pending: self.pending & !bit_of(timer_id), ..self }
    }

    pub fn new() -> (r: Self)
        ensures
            r == TcpTimerState::idle(),
    {
        TcpTimerState { active: 0, pending: 0 }
    }

    pub fn is_active(&self, timer_id: u32) -> (r: bool)
        requires
            timer_id < TIMER_MASK_BITS,
        ensures
            r == holds(self.active, timer_id),
    {
        timer_mask_contains(self.active, timer_id)
    }

    pub fn is_pending(&self, timer_id: u32) -> (r: bool)
        requires
            timer_id < TIMER_MASK_BITS,
        ensures
            r == holds(self.pending, timer_id),
    {
        timer_mask_contains(self.pending, timer_id)
    }

    pub fn set(&mut self, timer_id: u32)
        requires
            timer_id < TIMER_MASK_BITS,
        ensures
            *final(self) == old(self).started(timer_id),
    {
        self.active = self.active | timer_bit(timer_id);
    }

    pub fn reset(&mut self, timer_id: u32)
        requires
            timer_id < TIMER_MASK_BITS,
        ensures
            *final(self) == old(self).stopped(timer_id),
    {
        let mask: u16 = !timer_bit(timer_id);
        self.active = self.active & mask;
        self.pending = self.pending & mask;
    }

    pub fn expire(&mut self, timer_id: u32)
        requires
            timer_id < TIMER_MASK_BITS,
        ensures
            *final(self) == old(self).fired(timer_id),
    {
        self.active = self.active & !timer_bit(timer_id);
        self.pending = self.pending | timer_bit(timer_id);
    }

    /// Takes a fired timer up. It counts only if it was not started again since.
    pub fn dispatch_pending(&mut self, timer_id: u32) -> (r: bool)
        requires
            timer_id < TIMER_MASK_BITS,
        ensures
            *final(self) == (if holds(old(self).pending, timer_id) {
                old(self).dispatched(timer_id)
            } else {
                *old(self)
            }),
            r == (holds(old(self).pending, timer_id) && !holds(old(self).active, timer_id)),
    {
        if !self.is_pending(timer_id) {
            return false;
        }
        self.pending = self.pending & !timer_bit(timer_id);
        !self.is_active(timer_id)
    }
}

/// Starting a timer makes it run and leaves every other timer as it was.
pub proof fn starting_touches_one_timer(state: TcpTimerState, timer_id: u32, other: u32)
    requires
        timer_id < TIMER_MASK_BITS,
        other < TIMER_MASK_BITS,
    ensures
        holds(state.started(timer_id).active, other) == (other == timer_id || holds(
            state.active,
            other,
        )),
        state.started(timer_id).pending == state.pending,
{
    let active = state.active;
    assert(((active | (1u16 << timer_id)) & (1u16 << other) != 0) == (other == timer_id || active & (
    1u16 << other) != 0)) by (bit_vector)
        requires
            timer_id < 16,
            other < 16,
    ;
}

/// Stopping a timer clears it, fired or not, and leaves every other timer as it
/// was.
pub proof fn stopping_touches_one_timer(state: TcpTimerState, timer_id: u32, other: u32)
    requires
        timer_id < TIMER_MASK_BITS,
        other < TIMER_MASK_BITS,
    ensures
        holds(state.stopped(timer_id).active, other) == (other != timer_id && holds(
            state.active,
            other,
        )),
        holds(state.stopped(timer_id).pending, other) == (other != timer_id && holds(
            state.pending,
            other,
        )),
{
    lemma_cleared_bit(state.active, timer_id, other);
    lemma_cleared_bit(state.pending, timer_id, other);
}

/// A timer that fires stops running and waits for its handler; every other timer
/// stays as it was.
pub proof fn firing_touches_one_timer(state: TcpTimerState, timer_id: u32, other: u32)
    requires
        timer_id < TIMER_MASK_BITS,
        other < TIMER_MASK_BITS,
    ensures
        holds(state.fired(timer_id).active, other) == (other != timer_id && holds(
            state.active,
            other,
        )),
        holds(state.fired(timer_id).pending, other) == (other == timer_id || holds(
            state.pending,
            other,
        )),
{
    lemma_cleared_bit(state.active, timer_id, other);
    let pending = state.pending;
    assert(((pending | (1u16 << timer_id)) & (1u16 << other) != 0) == (other == timer_id || pending
        & (1u16 << other) != 0)) by (bit_vector)
        requires
            timer_id < 16,
            other < 16,
    ;
}

/// A fired timer is handled once: after its dispatch it waits no longer. One that
/// was started again in between is not handled at all.
pub proof fn fired_timer_is_handled_once(state: TcpTimerState, timer_id: u32)
    requires
        timer_id < TIMER_MASK_BITS,
    ensures
        holds(state.fired(timer_id).pending, timer_id),
        !holds(state.fired(timer_id).active, timer_id),
        !holds(state.fired(timer_id).dispatched(timer_id).pending, timer_id),
        holds(state.fired(timer_id).started(timer_id).active, timer_id),
{
    firing_touches_one_timer(state, timer_id, timer_id);
    starting_touches_one_timer(state.fired(timer_id), timer_id, timer_id);
    lemma_cleared_bit(state.fired(timer_id).pending, timer_id, timer_id);
}

proof fn lemma_cleared_bit(mask: u16, timer_id: u32, other: u32)
    requires
        timer_id < TIMER_MASK_BITS,
        other < TIMER_MASK_BITS,
    ensures
        holds(mask & !bit_of(timer_id), other) == (other != timer_id && holds(mask, other)),
{
    assert(((mask & !(1u16 << timer_id)) & (1u16 << other) != 0) == (other != timer_id && mask & (
    1u16 << other) != 0)) by (bit_vector)
        requires
            timer_id < 16,
            other < 16,
    ;
}

} // verus!
