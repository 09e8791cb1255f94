//! One-shot countdown that gates how often a jump may be triggered.
use vstd::prelude::*;

verus! {

/// A one-shot countdown measured in nanoseconds.
///
/// It advances by the elapsed time of each tick, stops once it reaches its
/// full duration, and only a reset starts it over.
#[derive(Clone, Copy, Debug, PartialEq, Eq, Structural)]
pub struct Cooldown {
    pub elapsed: u64,
    pub duration: u64,
}

impl Cooldown {
    /// The countdown never runs past its duration.
    pub open spec fn wf(&self) -> bool {
        self.elapsed <= self.duration
    }

    /// Time left before the countdown has fully elapsed.
    pub open spec fn remaining_spec(&self) -> int {
        self.duration - self.elapsed
    }

    /// The countdown after one tick of `delta` nanoseconds.
    pub open spec fn after_tick(&self, delta: u64) -> Cooldown {
        Cooldown {
            elapsed: if self.elapsed + delta >= self.duration {
                self.duration
            } else {
                (self.elapsed + delta) as u64
            },
            duration: self.duration,
        }
    }

    /// The countdown after a run of ticks, first to last.
    pub open spec fn after_ticks(&self, deltas: Seq<u64>) -> Cooldown
        decreases deltas.len(),
    {
        if deltas.len() == 0 {
            *self
        } else {
            self.after_tick(deltas[0]).after_ticks(deltas.drop_first())
        }
    }

    /// A countdown of `duration` nanoseconds that has just started.
    pub fn new(duration: u64) -> (r: Cooldown)
        ensures
            r.wf(),
            r.elapsed == 0,
            r.duration == duration,
    {
        Cooldown { elapsed: 0, duration }
    }

    /// Advances the countdown by `delta` nanoseconds, stopping at zero remaining.
    pub fn tick(&mut self, delta: u64)
        requires
            old(self).wf(),
        ensures
            final(self).wf(),
            *final(self) == old(self).after_tick(delta),
    {
        if delta >= self.duration - self.elapsed {
            self.elapsed = self.duration;
        } else {
            self.elapsed = self.elapsed + delta;
        }
    }

    /// Time left, in nanoseconds, before the countdown has fully elapsed.
    pub fn remaining(&self) -> (r: u64)
        requires
            self.wf(),
        ensures
            r == self.remaining_spec(),
    {
        self.duration - self.elapsed
    }

    /// Starts the countdown over at its full duration.
    pub fn reset(&mut self)
        ensures
            final(self).elapsed == 0,
            final(self).duration == old(self).duration,
            final(self).wf(),
    {
        self.elapsed = 0;
    }
}

/// Between resets the time left never grows, and it never drops below zero.
pub proof fn lemma_remaining_never_grows(c: Cooldown, deltas: Seq<u64>)
    requires
        c.wf(),
    ensures
        c.after_ticks(deltas).wf(),
        c.after_ticks(deltas).duration == c.duration,
        0 <= c.after_ticks(deltas).remaining_spec() <= c.remaining_spec(),
    decreases deltas.len(),
{
    if deltas.len() > 0 {
        lemma_remaining_never_grows(c.after_tick(deltas[0]), deltas.drop_first());
    }
}

} // verus!
