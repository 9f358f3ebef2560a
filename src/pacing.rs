//! The lateness guard of a competitor.
//!
//! After each input the handler compares the time since its last
//! broadcast with the tick delay.  Early, it sleeps out the rest; late, the
//! overrun is added to its debt, which never shrinks, and once the debt
//! exceeds the ceiling the competitor is evicted.  Training mode paces
//! nothing.

use vstd::prelude::*;

verus! {

/// What the handler does after an input arrived.
#[derive(Clone, Copy, Debug, PartialEq, Eq, Structural)]
pub enum Pace {
    /// Go on with the round at once.
    Proceed,
    /// Sleep this many milliseconds, then go on.
    Sleep { millis: u64 },
    /// Close the connection: the competitor is too late overall.
    Evict,
}

/// One competitor's pacing, in milliseconds.
#[derive(Clone, Copy, Debug, PartialEq, Eq, Structural)]
pub struct DebtTracker {
    /// Total lateness so far.
    pub debt: u128,
    /// Lateness beyond which the competitor is evicted.
    pub max_debt: u128,
    /// Target time between two broadcasts.
    pub tick_delay: u64,
    pub training_mode: bool,
}

/// The tracker after an input that came `elapsed` milliseconds after the
/// last broadcast, and what the handler does.
pub open spec fn paced(t: DebtTracker, elapsed: u128) -> (DebtTracker, Pace) {
    if t.training_mode || elapsed == t.tick_delay {
        (t, Pace::Proceed)
    } else if elapsed < t.tick_delay {
        (t, Pace::Sleep { millis: (t.tick_delay - elapsed) as u64 })
    } else {
        let sum = t.debt + (elapsed - t.tick_delay);
        let debt = if sum > u128::MAX { u128::MAX } else { sum as u128 };
        (DebtTracker { debt, ..t }, if debt > t.max_debt { Pace::Evict } else { Pace::Proceed })
    }
}

impl DebtTracker {
    /// No debt yet.
    pub fn new(tick_delay: u64, max_debt: u128, training_mode: bool) -> (r: DebtTracker)
        ensures
            r == (DebtTracker { debt: 0, max_debt, tick_delay, training_mode }),
    {
        DebtTracker { debt: 0, max_debt, tick_delay, training_mode }
    }

    /// Decides what follows an input that came `elapsed` milliseconds after
    /// the last broadcast, adding any overrun to the debt (which saturates
    /// at the largest `u128`).
    pub fn after_input(&mut self, elapsed: u128) -> (p: Pace)
        ensures
            (*final(self), p) == paced(*old(self), elapsed),
            final(self).debt >= old(self).debt,
    {
        let delay = self.tick_delay as u128;
        if self.training_mode || elapsed == delay {
            Pace::Proceed
        } else if elapsed < delay {
            Pace::Sleep { millis: (delay - elapsed) as u64 }
        } else {
            self.debt = self.debt.saturating_add(elapsed - delay);
            if self.debt > self.max_debt {
                Pace::Evict
            } else {
                Pace::Proceed
            }
        }
    }
}

} // verus!
