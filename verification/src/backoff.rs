//! Adaptive backoff: a few rounds of doubling busy-spins, then a yield to
//! the scheduler; and thread placement.

use vstd::prelude::*;

verus! {

/// What a backoff step asks the caller to do.
#[derive(Debug, Clone, Copy, PartialEq, Eq, Structural)]
pub enum Snooze {
    /// Spin this many times.
    Spin(u32),
    /// Yield to the scheduler.
    Yield,
}

/// Backoff that spins 1, 2, 4, 8, 16 and 32 times, then yields, then starts over.
#[derive(Debug, Clone, Copy, PartialEq, Eq, Structural)]
pub struct AdaptiveYield {
    pub spins: u32,
}

/// 2 to the power `n`, for small `n`.
pub open spec fn spin_count(n: u32) -> u32
    decreases n,
{
    if n == 0 {
        1
    } else {
        (2 * spin_count((n - 1) as u32)) as u32
    }
}

impl AdaptiveYield {
    /// A backoff that has not spun yet.
    pub fn new() -> (a: AdaptiveYield)
        ensures
            a.spins == 0,
    {
        AdaptiveYield { spins: 0 }
    }

    /// The next step: the `k`-th of the first six steps spins 2^k times;
    /// the seventh yields and starts over.
    pub fn snooze(&mut self) -> (s: Snooze)
        requires
            old(self).spins <= 6,
        ensures
            old(self).spins < 6 ==> s == Snooze::Spin(spin_count(old(self).spins)) && final(self).spins == old(self).spins + 1,
            old(self).spins >= 6 ==> s == Snooze::Yield && final(self).spins == 0,
            final(self).spins <= 6,
    {
        if self.spins < 6 {
            let mut n: u32 = 1;
            let mut k: u32 = 0;
            while k < self.spins
                invariant
                    k <= self.spins < 6,
                    n == spin_count(k),
                    k == 0 ==> n == 1,
                    k == 1 ==> n == 2,
                    k == 2 ==> n == 4,
                    k == 3 ==> n == 8,
                    k == 4 ==> n == 16,
                    k == 5 ==> n == 32,
                decreases self.spins - k,
            {
                n = n * 2;
                k = k + 1;
            }
            self.spins = self.spins + 1;
            Snooze::Spin(n)
        } else {
            self.spins = 0;
            Snooze::Yield
        }
    }
}

/// Pins the current thread to a core. Without platform support this does nothing.
pub fn set_current_thread_affinity(_core_index: usize) {
}

} // verus!
