//! The two 8-bit countdown counters of the device: the delay timer and the
//! sound timer. A host loop ticks them at a fixed 60 Hz cadence; each tick
//! decrements both counters independently, floored at zero.

use vstd::prelude::*;

verus! {

/// One downward step of a counter: decrement, floored at zero.
pub open spec fn spec_tick(v: u8) -> u8 {
    if v > 0 {
        (v - 1) as u8
    } else {
        0
    }
}

/// `n` downward steps of a counter.
pub open spec fn spec_ticks(v: u8, n: nat) -> u8
    decreases n,
{
    if n == 0 {
        v
    } else {
        spec_ticks(spec_tick(v), (n - 1) as nat)
    }
}

/// The delay and sound counters.
pub struct TimerState {
    pub delay: u8,
    pub sound: u8,
}

impl TimerState {
    pub fn new() -> (r: TimerState)
        ensures
            r.delay == 0,
            r.sound == 0,
    {
        TimerState { delay: 0, sound: 0 }
    }

    /// One 60 Hz tick: decrement both counters, each floored at zero.
    pub fn tick(&mut self)
        ensures
            final(self).delay == spec_tick(old(self).delay),
            final(self).sound == spec_tick(old(self).sound),
    {
        if self.delay > 0 {
            self.delay = self.delay - 1;
        }
        if self.sound > 0 {
            self.sound = self.sound - 1;
        }
    }

    /// Start a new countdown of the delay timer from `val`.
    pub fn set_delay(&mut self, val: u8)
        ensures
            final(self).delay == val,
            final(self).sound == old(self).sound,
    {
        self.delay = val;
    }

    /// Start a new countdown of the sound timer from `val`.
    pub fn set_sound(&mut self, val: u8)
        ensures
            final(self).sound == val,
            final(self).delay == old(self).delay,
    {
        self.sound = val;
    }

    /// The current value of the delay timer.
    pub fn poll_delay(&self) -> (r: u8)
        ensures
            r == self.delay,
    {
        self.delay
    }
}

/// A counter set to `n` reaches exactly zero after `n` ticks, and any number
/// of further ticks leaves it at zero: the countdown never wraps below zero.
pub proof fn lemma_timer_countdown(n: u8, extra: nat)
    ensures
        spec_ticks(n, n as nat) == 0,
        spec_ticks(n, n as nat + extra) == 0,
{
    lemma_ticks_reach_zero(n);
    lemma_ticks_add(n, n as nat, extra);
    lemma_ticks_stay_zero(extra);
}

proof fn lemma_ticks_reach_zero(n: u8)
    ensures
        spec_ticks(n, n as nat) == 0,
    decreases n,
{
    if n > 0 {
        lemma_ticks_reach_zero((n - 1) as u8);
    }
}

proof fn lemma_ticks_add(v: u8, a: nat, b: nat)
    ensures
        spec_ticks(v, a + b) == spec_ticks(spec_ticks(v, a), b),
    decreases a,
{
    if a > 0 {
        lemma_ticks_add(spec_tick(v), (a - 1) as nat, b);
    }
}

proof fn lemma_ticks_stay_zero(extra: nat)
    ensures
        spec_ticks(0, extra) == 0,
    decreases extra,
{
    if extra > 0 {
        lemma_ticks_stay_zero((extra - 1) as nat);
    }
}

} // verus!
