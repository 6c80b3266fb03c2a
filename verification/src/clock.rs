//! Clocks that run in steps of a fixed length, whatever the length of the
//! frames that drive them.

use vstd::prelude::*;

verus! {

/// A clock with a step of so many milliseconds. Time that has passed and
/// does not fill a step yet is saved for the next frame.
#[derive(Clone, Copy, Debug, PartialEq, Eq, Structural)]
pub struct FixedClock {
    step_ms: u64,
    saved_ms: u64,
}

/// `a + b`, but no more than a `u64` holds.
pub open spec fn held_sum(a: u64, b: u64) -> int {
    if a + b > u64::MAX {
        u64::MAX as int
    } else {
        a + b
    }
}

impl FixedClock {
    /// The length of a step, in milliseconds.
    pub closed spec fn step(&self) -> u64 {
        self.step_ms
    }

    /// The time saved, in milliseconds.
    pub closed spec fn saved(&self) -> u64 {
        self.saved_ms
    }

    /// A clock with steps of `step_ms` milliseconds and nothing saved.
    pub fn new(step_ms: u64) -> (c: Self)
        requires
            step_ms > 0,
        ensures
            c.step() == step_ms,
            c.saved() == 0,
    {
        Self { step_ms, saved_ms: 0 }
    }

    /// Lets `delta_ms` milliseconds pass. The result is the number of steps
    /// that have come due; what is left over stays saved, and is always
    /// less than a step.
    pub fn advance(&mut self, delta_ms: u64) -> (steps: u64)
        requires
            old(self).step() > 0,
        ensures
            final(self).step() == old(self).step(),
            steps == held_sum(old(self).saved(), delta_ms) / (old(self).step() as int),
            final(self).saved() == held_sum(old(self).saved(), delta_ms) % (old(self).step() as int),
            final(self).saved() < final(self).step(),
    {
        let total = self.saved_ms.saturating_add(delta_ms);
        let steps = total / self.step_ms;
        self.saved_ms = total % self.step_ms;
        steps
    }
}

} // verus!
