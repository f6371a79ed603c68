//! A one-shot frame timer over integer microseconds.
//!
//! The timer accumulates elapsed time past its duration (it does not clamp),
//! so the overshoot of a completed frame can be carried into the next one.

use vstd::prelude::*;

verus! {

/// A one-shot countdown: `elapsed` accumulates ticks and the timer is
/// finished once `elapsed` reaches `duration`. Both are in microseconds.
#[derive(Debug, Clone, Copy, PartialEq, Eq, Structural)]
pub struct FrameTimer {
    pub elapsed: u64,
    pub duration: u64,
}

impl FrameTimer {
    /// The timer after `delta` more microseconds have passed; the sum
    /// saturates at the largest representable time.
    pub open spec fn spec_ticked(self, delta: u64) -> FrameTimer {
        FrameTimer {
            elapsed: if self.elapsed + delta <= u64::MAX {
                (self.elapsed + delta) as u64
            } else {
                u64::MAX
            },
            duration: self.duration,
        }
    }

    /// Whether the timer has completed its countdown.
    pub open spec fn spec_finished(self) -> bool {
        self.elapsed >= self.duration
    }

    /// A fresh timer that completes after `duration` microseconds.
    pub fn new(duration: u64) -> (t: Self)
        ensures
            t == (FrameTimer { elapsed: 0u64, duration }),
    {
        FrameTimer { elapsed: 0, duration }
    }

    /// Advance the timer by `delta` microseconds.
    pub fn tick(&mut self, delta: u64)
        ensures
            *final(self) == old(self).spec_ticked(delta),
    {
        if delta <= u64::MAX - self.elapsed {
            self.elapsed = self.elapsed + delta;
        } else {
            self.elapsed = u64::MAX;
        }
    }

    pub fn finished(&self) -> (r: bool)
        ensures
            r == self.spec_finished(),
    {
        self.elapsed >= self.duration
    }
}

} // verus!
