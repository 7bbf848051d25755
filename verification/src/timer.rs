//! Rate-limited triggers: each behaviour of the game that happens at a fixed
//! rate owns one, feeds it the time of every frame, and acts when it fires.

use vstd::prelude::*;

verus! {

/// Time is counted in whole ticks; this many make one second.
pub const TICKS_PER_SECOND: u64 = 1_000_000;

/// An accumulator of elapsed time with a threshold. It is ready once the time
/// gathered since it last fired exceeds the threshold. The accumulator stops
/// at `u64::MAX` instead of wrapping round.
#[derive(Clone, Copy, Debug, PartialEq, Eq, Structural)]
pub struct Trigger {
    pub elapsed: u64,
    pub threshold: u64,
}

impl Trigger {
    /// The trigger after `dt` more ticks have passed.
    pub open spec fn accumulated(self, dt: u64) -> Trigger {
        Trigger {
            elapsed: if self.elapsed + dt > u64::MAX {
                u64::MAX
            } else {
                (self.elapsed + dt) as u64
            },
            threshold: self.threshold,
        }
    }

    /// More time has been gathered than the threshold asks for.
    pub open spec fn is_ready(self) -> bool {
        self.elapsed > self.threshold
    }

    /// The trigger with its accumulator back at zero.
    pub open spec fn rearmed(self) -> Trigger {
        Trigger { elapsed: 0, threshold: self.threshold }
    }

    /// The trigger after an attempt to fire it: rearmed if it was ready,
    /// untouched if not.
    pub open spec fn fired(self) -> Trigger {
        if self.is_ready() {
            self.rearmed()
        } else {
            self
        }
    }

    /// A trigger with the given threshold that has gathered no time yet.
    pub fn new(threshold: u64) -> (t: Trigger)
        ensures
            t == (Trigger { elapsed: 0, threshold }),
    {
        Trigger { elapsed: 0, threshold }
    }

    /// Adds the `dt` ticks of one frame to the accumulator.
    pub fn accumulate(&mut self, dt: u64)
        ensures
            *final(self) == old(self).accumulated(dt),
    {
        self.elapsed = self.elapsed.saturating_add(dt);
    }

    /// Whether the trigger would fire now.
    pub fn ready(&self) -> (r: bool)
        ensures
            r == self.is_ready(),
    {
        self.elapsed > self.threshold
    }

    /// Sets the accumulator back to zero.
    pub fn reset(&mut self)
        ensures
            *final(self) == old(self).rearmed(),
    {
        self.elapsed = 0;
    }

    /// Fires the trigger if it is ready: reports whether it was, and in that
    /// case starts gathering time anew.
    pub fn fire(&mut self) -> (was_ready: bool)
        ensures
            was_ready == old(self).is_ready(),
            *final(self) == old(self).fired(),
    {
        if self.elapsed > self.threshold {
            self.elapsed = 0;
            true
        } else {
            false
        }
    }
}

/// The interval between two steps of something that moves `speed` cells per
/// second. A speed of zero never steps: its interval cannot be exceeded.
pub open spec fn interval_of(speed: u64) -> u64 {
    if speed == 0 {
        u64::MAX
    } else {
        TICKS_PER_SECOND / speed
    }
}

/// Computes the step interval of a speed given in cells per second.
pub fn step_interval(speed: u64) -> (interval: u64)
    ensures
        interval == interval_of(speed),
{
    if speed == 0 {
        u64::MAX
    } else {
        TICKS_PER_SECOND / speed
    }
}

} // verus!
