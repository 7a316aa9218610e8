//! A single grain: one playback voice reading from the shared history.
use vstd::prelude::*;
use crate::delay_line::{interpolate, DelayLine, MAX_CAPACITY};
use crate::fixed::{floor_div, ONE};

verus! {

/// The longest lifetime of a grain, in samples.
pub const MAX_WINDOW: u64 = 0x1_0000_0000_0000;

/// A playback voice. A free grain (`active == false`) is silent and unchanged
/// by processing. An active grain reads the history `offset / ONE` samples into
/// the past, moves that offset by the live speed on every sample and frees
/// itself once `elapsed` reaches `window`.
#[derive(Clone, Copy)]
pub struct Grain {
    pub active: bool,
    /// Read offset into the past, in Q16 samples.
    pub offset: u64,
    /// Samples played since the grain started.
    pub elapsed: u64,
    /// Lifetime in samples.
    pub window: u64,
    /// Grain frequency in millihertz, as set at the trigger.
    pub freq: u64,
    /// Speed in Q16, as set at the trigger.
    pub speed: i32,
}

/// The largest read offset, in Q16 samples, that leaves room for interpolation
/// in a history of `len` samples.
pub open spec fn max_offset(len: int) -> int {
    (len - 2) * ONE
}

/// `v` held within `[lo, hi]`.
pub open spec fn clamp(v: int, lo: int, hi: int) -> int {
    if v < lo { lo } else if v > hi { hi } else { v }
}

/// Where a grain starts reading. Reading backward (negative speed) starts far
/// enough in the past to last the whole window, as far as the history reaches;
/// reading forward starts at the newest sample.
pub open spec fn start_offset(window: int, speed: int, max: int) -> int {
    if speed < 0 {
        if window * (-speed) < max { window * (-speed) } else { max }
    } else {
        0
    }
}

/// Length of the rise and of the fall of the envelope: a quarter of the
/// window, at least one sample.
pub open spec fn fade_len(window: int) -> int {
    if window / 4 > 0 { window / 4 } else { 1 }
}

/// The envelope in Q16 after `elapsed` of `window` samples: zero at both ends,
/// rising and falling linearly over `fade_len(window)` samples, `ONE` in between.
pub open spec fn envelope(elapsed: int, window: int) -> int {
    let edge = if elapsed < window - elapsed { elapsed } else { window - elapsed };
    if edge >= fade_len(window) { ONE as int } else { edge * ONE / fade_len(window) }
}

/// A grain that has just been started (active unless its window is empty).
pub open spec fn started(freq: int, window: int, speed: int, capacity: int) -> Grain {
    Grain {
        active: window > 0,
        offset: start_offset(window, speed, max_offset(capacity)) as u64,
        elapsed: 0,
        window: window as u64,
        freq: freq as u64,
        speed: speed as i32,
    }
}

impl Grain {
    /// Holds when the lifetime is bounded and an active grain has not overrun it.
    pub open spec fn wf(&self) -> bool {
        &&& self.window <= MAX_WINDOW
        &&& self.elapsed <= self.window
        &&& self.active ==> self.elapsed < self.window
    }

    /// The clamped read offset this grain reads at from a history of `len` samples.
    pub open spec fn read_offset(&self, len: int) -> int {
        if self.offset < max_offset(len) { self.offset as int } else { max_offset(len) }
    }

    /// What the grain contributes for one sample read from the history `line`.
    pub open spec fn output(&self, line: Seq<i32>) -> int {
        if !self.active {
            0
        } else {
            let pos = self.read_offset(line.len() as int);
            let s = interpolate(line[pos / ONE as int] as int, line[pos / ONE as int + 1] as int, pos % ONE as int);
            s * envelope(self.elapsed as int, self.window as int) / ONE as int
        }
    }

    /// The grain after one sample at `speed`, against a history of `len` samples.
    pub open spec fn next(&self, len: int, speed: int) -> Grain {
        if !self.active {
            *self
        } else {
            Grain {
                active: self.elapsed + 1 < self.window,
                offset: clamp(self.read_offset(len) + speed, 0, max_offset(len)) as u64,
                elapsed: (self.elapsed + 1) as u64,
                ..*self
            }
        }
    }

    /// A free grain.
    pub fn new() -> (r: Grain)
        ensures
            !r.active,
            r.wf(),
    {
        Grain { active: false, offset: 0, elapsed: 0, window: 0, freq: 0, speed: 0 }
    }

    /// Whether the grain is free to be started.
    pub fn is_free(&self) -> (r: bool)
        ensures
            r == !self.active,
    {
        !self.active
    }

    /// Starts the grain with a lifetime of `window` samples, reading from a
    /// history of `capacity` samples. A grain with no lifetime stays free.
    pub fn set_parameters(&mut self, freq: u64, window: u64, speed: i32, capacity: u64)
        requires
            window <= MAX_WINDOW,
            2 <= capacity <= MAX_CAPACITY,
        ensures
            *final(self) == started(freq as int, window as int, speed as int, capacity as int),
            final(self).wf(),
    {
        let max: u64 = (capacity - 2) * ONE;
        let offset: u64 = if speed < 0 {
            assert(window * (-speed) <= MAX_WINDOW * 0x8000_0000) by (nonlinear_arith)
                requires window <= MAX_WINDOW, 0 < -speed <= 0x8000_0000;
            let reach: u128 = (window as u128) * ((-(speed as i64)) as u128);
            if reach < max as u128 { reach as u64 } else { max }
        } else {
            0
        };
        *self = Grain { active: window > 0, offset, elapsed: 0, window, freq, speed };
    }

    /// Plays one sample: returns the enveloped sample read at the grain's offset
    /// and advances the grain by `speed`. A free grain returns 0 and stays as it is.
    pub fn process(&mut self, line: &DelayLine, speed: i32) -> (r: i64)
        requires
            old(self).wf(),
            line.wf(),
        ensures
            final(self).wf(),
            *final(self) == old(self).next(line@.len() as int, speed as int),
            r == old(self).output(line@),
            -0x8000_0000 <= r <= 0x8000_0000,
    {
        if !self.active {
            return 0;
        }
        let max: u64 = (line.capacity() - 2) * ONE;
        let pos: u64 = if self.offset < max { self.offset } else { max };
        proof {
            lemma_whole_part_in_range(pos as int, line@.len() as int);
        }
        let s = line.read(pos / ONE, pos % ONE);
        let g = gain(self.elapsed, self.window);
        proof {
            lemma_scaled_sample(s as int, g as int);
        }
        let prod: i64 = s as i64 * g as i64;
        let out = floor_div(prod, ONE as i64);
        let moved: i64 = pos as i64 + speed as i64;
        self.offset = if moved < 0 {
            0
        } else if moved as u64 > max {
            max
        } else {
            moved as u64
        };
        self.elapsed = self.elapsed + 1;
        if self.elapsed >= self.window {
            self.active = false;
        }
        out
    }
}

/// At zero speed an active grain keeps reading at the same delay: its read
/// offset, once within the history, does not move.
pub proof fn lemma_still_grain_holds_offset(g: Grain, len: int)
    requires
        g.active,
        len >= 2,
        g.offset <= max_offset(len),
    ensures
        g.next(len, 0).offset == g.offset,
{
}

/// At a speed of minus one (an octave up) a grain starts `window` samples in
/// the past, as far as the history reaches, and moves exactly one sample toward
/// the present on every sample until it reaches the newest one.
pub proof fn lemma_octave_up_unit_steps(g: Grain, window: int, len: int)
    requires
        len >= 2,
        window >= 0,
        g.active,
        ONE <= g.offset <= max_offset(len),
    ensures
        start_offset(window, -(ONE as int), max_offset(len))
            == if window * ONE < max_offset(len) { window * ONE } else { max_offset(len) },
        g.next(len, -(ONE as int)).offset == g.offset - ONE,
{
}

proof fn lemma_whole_part_in_range(pos: int, len: int)
    requires
        0 <= pos <= max_offset(len),
        len >= 2,
    ensures
        pos / (ONE as int) + 1 < len,
        0 <= pos % (ONE as int) < ONE,
{
    vstd::arithmetic::div_mod::lemma_div_is_ordered(pos, (len - 2) * ONE as int, ONE as int);
    vstd::arithmetic::div_mod::lemma_div_multiples_vanish(len - 2, ONE as int);
    vstd::arithmetic::div_mod::lemma_mod_bound(pos, ONE as int);
}

proof fn lemma_scaled_sample(s: int, g: int)
    requires
        -0x8000_0000 <= s < 0x8000_0000,
        0 <= g <= ONE,
    ensures
        -0x8000_0000 * ONE <= s * g <= 0x8000_0000 * ONE,
        -0x8000_0000 <= (s * g) / ONE as int <= 0x8000_0000,
{
    assert(-0x8000_0000 * ONE <= s * g <= 0x8000_0000 * ONE) by (nonlinear_arith)
        requires -0x8000_0000 <= s < 0x8000_0000, 0 <= g <= ONE;
    vstd::arithmetic::div_mod::lemma_div_is_ordered(-0x8000_0000 * ONE, s * g, ONE as int);
    vstd::arithmetic::div_mod::lemma_div_is_ordered(s * g, 0x8000_0000 * ONE, ONE as int);
}

/// The envelope gain in Q16 after `elapsed` of `window` samples.
fn gain(elapsed: u64, window: u64) -> (r: u64)
    requires
        elapsed <= window <= MAX_WINDOW,
    ensures
        r == envelope(elapsed as int, window as int),
        r <= ONE,
{
    let fade: u64 = if window / 4 > 0 { window / 4 } else { 1 };
    let edge: u64 = if elapsed < window - elapsed { elapsed } else { window - elapsed };
    if edge >= fade {
        ONE
    } else {
        proof {
            assert(edge * ONE <= fade * ONE) by (nonlinear_arith) requires edge < fade;
            vstd::arithmetic::div_mod::lemma_div_is_ordered(edge * ONE as int, fade * ONE as int, fade as int);
            vstd::arithmetic::div_mod::lemma_div_multiples_vanish(ONE as int, fade as int);
            assert(fade * ONE == ONE * fade) by (nonlinear_arith);
        }
        edge * ONE / fade
    }
}

} // verus!
