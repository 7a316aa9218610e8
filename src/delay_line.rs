//! A rolling history of the most recent input samples.
use vstd::prelude::*;
use crate::fixed::{floor_div, ONE};

verus! {

/// The largest number of samples a delay line may hold.
pub const MAX_CAPACITY: u64 = 0x100_0000_0000;

/// A fixed-capacity ring buffer of samples.
///
/// Its view is the history, newest first: `self@[0]` is the sample written
/// last, `self@[k]` the one written `k` samples before it. Before any write the
/// history is silence.
pub struct DelayLine {
    buffer: Vec<i32>,
    write_pos: usize,
}

/// The slot of the ring that holds the sample `k` steps into the past, when the
/// next write goes to slot `w` of a ring of `len` slots.
pub open spec fn slot(w: int, len: int, k: int) -> int {
    if k < w {
        w - 1 - k
    } else {
        w + len - 1 - k
    }
}

/// Linear interpolation between `a` (at `frac == 0`) and `b` (at `frac == ONE`),
/// rounded down.
pub open spec fn interpolate(a: int, b: int, frac: int) -> int {
    a + ((b - a) * frac) / (ONE as int)
}

/// The history after `x` was written onto `h`: `x` is newest, the oldest sample drops out.
pub open spec fn pushed(h: Seq<i32>, x: i32) -> Seq<i32> {
    seq![x] + h.drop_last()
}

impl View for DelayLine {
    type V = Seq<i32>;

    closed spec fn view(&self) -> Seq<i32> {
        Seq::new(
            self.buffer@.len(),
            |k: int| self.buffer@[slot(self.write_pos as int, self.buffer@.len() as int, k)],
        )
    }
}

proof fn lemma_interpolate_between(a: int, b: int, frac: int)
    requires
        0 <= frac < ONE,
    ensures
        a <= b ==> a <= interpolate(a, b, frac) <= b,
        b <= a ==> b <= interpolate(a, b, frac) <= a,
{
    let one = ONE as int;
    if a <= b {
        assert(0 <= (b - a) * frac <= (b - a) * one) by (nonlinear_arith)
            requires a <= b, 0 <= frac < one;
        vstd::arithmetic::div_mod::lemma_div_is_ordered(0, (b - a) * frac, one);
        vstd::arithmetic::div_mod::lemma_div_is_ordered((b - a) * frac, (b - a) * one, one);
        vstd::arithmetic::div_mod::lemma_div_multiples_vanish(b - a, one);
    } else {
        assert((a - b) * (-one) <= (b - a) * frac <= 0) by (nonlinear_arith)
            requires b < a, 0 <= frac < one;
        vstd::arithmetic::div_mod::lemma_div_is_ordered((a - b) * (-one), (b - a) * frac, one);
        vstd::arithmetic::div_mod::lemma_div_is_ordered((b - a) * frac, 0, one);
        assert((a - b) * (-one) == (b - a) * one) by (nonlinear_arith);
        vstd::arithmetic::div_mod::lemma_div_multiples_vanish(b - a, one);
    }
}

impl DelayLine {
    /// Holds when the write position is a slot of a ring of at least two slots.
    pub closed spec fn wf(&self) -> bool {
        &&& 2 <= self.buffer@.len() <= MAX_CAPACITY
        &&& self.write_pos < self.buffer@.len()
    }

    /// A silent history of `capacity` samples.
    pub fn new(capacity: u64) -> (r: DelayLine)
        requires
            2 <= capacity <= MAX_CAPACITY,
        ensures
            r.wf(),
            r@ == Seq::new(capacity as nat, |k: int| 0i32),
    {
        let mut buffer: Vec<i32> = Vec::new();
        while (buffer.len() as u64) < capacity
            invariant
                buffer@.len() <= capacity,
                forall|i: int| 0 <= i < buffer@.len() ==> buffer@[i] == 0,
            decreases capacity - buffer@.len(),
        {
            buffer.push(0);
        }
        let r = DelayLine { buffer, write_pos: 0 };
        assert(r@ =~= Seq::new(capacity as nat, |k: int| 0i32));
        r
    }

    /// The number of samples of history kept.
    pub fn capacity(&self) -> (r: u64)
        requires
            self.wf(),
        ensures
            r == self@.len(),
            2 <= r <= MAX_CAPACITY,
    {
        self.buffer.len() as u64
    }

    /// Writes the newest sample, overwriting the oldest one.
    pub fn write(&mut self, sample: i32)
        requires
            old(self).wf(),
        ensures
            final(self).wf(),
            final(self)@ == pushed(old(self)@, sample),
    {
        let len = self.buffer.len();
        let w = self.write_pos;
        self.buffer.set(w, sample);
        self.write_pos = if w + 1 == len { 0 } else { w + 1 };
        assert(self@ =~= pushed(old(self)@, sample));
    }

    /// The sample `whole + frac / ONE` steps into the past, interpolated
    /// linearly between the two stored samples around it.
    pub fn read(&self, whole: u64, frac: u64) -> (r: i32)
        requires
            self.wf(),
            whole + 1 < self@.len(),
            frac < ONE,
        ensures
            r == interpolate(self@[whole as int] as int, self@[whole + 1] as int, frac as int),
    {
        let len = self.buffer.len();
        let w = self.write_pos;
        let k = whole as usize;
        let i = if k < w { w - 1 - k } else { w + (len - 1 - k) };
        let j = if k + 1 < w { w - 2 - k } else { w + (len - 2 - k) };
        let a = self.buffer[i];
        let b = self.buffer[j];
        let diff: i64 = b as i64 - a as i64;
        assert(-0x1_0000_0000_0000 < diff * frac < 0x1_0000_0000_0000) by (nonlinear_arith)
            requires -0x1_0000_0000 < diff < 0x1_0000_0000, 0 <= frac < 0x1_0000;
        let d: i64 = floor_div(diff * frac as i64, ONE as i64);
        proof {
            lemma_interpolate_between(a as int, b as int, frac as int);
        }
        (a as i64 + d) as i32
    }
}

} // verus!
