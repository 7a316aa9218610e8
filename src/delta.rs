//! An edge detector: the change of a signal since the previous sample.
use vstd::prelude::*;
use crate::phasor::{advance, CYCLE};

verus! {

/// Remembers the previous value of a phase signal.
pub struct Delta {
    pub previous: u32,
}

/// A phase that steps forward by less than a cycle goes down exactly on the
/// steps where it wraps: the change reported for such a step is negative if and
/// only if the phase reached a full cycle.
pub proof fn lemma_negative_iff_wrapped(previous: int, inc: int)
    requires
        0 <= previous < CYCLE,
        0 <= inc < CYCLE,
    ensures
        (advance(previous, inc) - previous < 0) == (previous + inc >= CYCLE),
{
}

impl Delta {
    /// A detector whose previous value is zero.
    pub fn new() -> (r: Delta)
        ensures
            r.previous == 0,
    {
        Delta { previous: 0 }
    }

    /// Returns `value` less the previous value and remembers `value`.
    pub fn process(&mut self, value: u32) -> (r: i64)
        ensures
            r == value - old(self).previous,
            final(self).previous == value,
    {
        let r = value as i64 - self.previous as i64;
        self.previous = value;
        r
    }
}

} // verus!
