//! The grain engine: triggering, voice allocation and overlap-add of grains.
use vstd::prelude::*;
use crate::delay_line::{DelayLine, MAX_CAPACITY};
use crate::delta::Delta;
use crate::fixed::{floor_div, ONE};
use crate::grain::{max_offset, started, Grain, MAX_WINDOW};
use crate::phasor::{advance, phase_increment, Phasor, CYCLE};

verus! {

/// Grains started per grain period: triggers come this many times as often as
/// the grain frequency.
pub const VOICES: u64 = 4;

/// Number of grains in the pool: two sets of `VOICES`, so that successive
/// generations of grains can overlap.
pub const POOL_SIZE: u64 = 8;

/// Grains per fundamental period of the input.
pub const GRAIN_FREQ_MULTIPLIER: u64 = 16;

/// The speed, in Q16, at the lowest pitch, one octave down: `1 - 2^-1`.
pub const MIN_PITCH_SPEED: u64 = 32768;

/// The lowest grain frequency, in Q16 hertz.
pub open spec fn min_grain_freq() -> int {
    GRAIN_FREQ_MULTIPLIER * MIN_PITCH_SPEED
}

/// The longest grain period, in whole seconds, rounded up.
pub open spec fn history_seconds() -> int {
    (ONE + min_grain_freq() - 1) / min_grain_freq()
}

/// Samples of history kept at `sample_rate`: the longest grain period, and two
/// more for interpolation.
pub open spec fn history_capacity(sample_rate: int) -> int {
    sample_rate * history_seconds() + 2
}

/// `|v|`.
pub open spec fn abs(v: int) -> int {
    if v < 0 { -v } else { v }
}

/// The number of grain periods per fundamental period for a fundamental of
/// `freq_mhz` millihertz: `freq / GRAIN_FREQ_MULTIPLIER` rounded down, at least one.
pub open spec fn subdivision(freq_mhz: int) -> int {
    let d = freq_mhz / (GRAIN_FREQ_MULTIPLIER * 1000) as int;
    if d > 0 { d } else { 1 }
}

/// The grain frequency, in millihertz, for a fundamental of `freq_mhz`
/// millihertz and a Q16 `speed`: `freq * |speed| / subdivision(freq)`, rounded down.
pub open spec fn grain_freq(freq_mhz: int, speed: int) -> int {
    freq_mhz * abs(speed) / (ONE * subdivision(freq_mhz))
}

/// The lifetime in samples of a grain of `freq_mhz` millihertz: one grain
/// period, `1000 / f` milliseconds for `f` in hertz, at `sample_rate`.
pub open spec fn window_len(sample_rate: int, freq_mhz: int) -> int {
    sample_rate * 1000 / freq_mhz
}

/// Whether `i` is the first free grain of `gs`.
pub open spec fn is_first_free(gs: Seq<Grain>, i: int) -> bool {
    &&& 0 <= i < gs.len()
    &&& !gs[i].active
    &&& forall|j: int| 0 <= j < i ==> #[trigger] gs[j].active
}

/// The pool after offering the new grain `g`: it takes the place of the first
/// free grain; when every grain is active it is dropped.
pub open spec fn assign(gs: Seq<Grain>, g: Grain) -> Seq<Grain> {
    if exists|i: int| is_first_free(gs, i) {
        gs.update(choose|i: int| is_first_free(gs, i), g)
    } else {
        gs
    }
}

/// Every grain advanced by one sample at `speed` against a history of `len` samples.
pub open spec fn stepped(gs: Seq<Grain>, len: int, speed: int) -> Seq<Grain> {
    Seq::new(gs.len(), |i: int| gs[i].next(len, speed))
}

/// The sum of what the grains contribute for one sample read from `line`.
pub open spec fn total(gs: Seq<Grain>, line: Seq<i32>) -> int
    decreases gs.len(),
{
    if gs.len() == 0 {
        0
    } else {
        total(gs.drop_last(), line) + gs.last().output(line)
    }
}

/// The sum of the grains, scaled by `2 / VOICES` so that the overlap of
/// successive grains keeps about unit gain.
pub open spec fn normalized(sum: int) -> int {
    sum * 2 / VOICES as int
}

/// The pool after `speeds.len()` samples without a frequency hint, one speed per sample.
pub open spec fn run_idle(gs: Seq<Grain>, len: int, speeds: Seq<i32>) -> Seq<Grain>
    decreases speeds.len(),
{
    if speeds.len() == 0 {
        gs
    } else {
        stepped(run_idle(gs, len, speeds.drop_last()), len, speeds.last() as int)
    }
}

/// When every grain is active, a trigger starts nothing and leaves the pool as it was.
pub proof fn lemma_full_pool_drops_trigger(gs: Seq<Grain>, g: Grain)
    requires
        forall|i: int| 0 <= i < gs.len() ==> #[trigger] gs[i].active,
    ensures
        assign(gs, g) == gs,
{
}

/// Without a frequency hint no grain starts: after `speeds.len()` samples a
/// grain is active exactly when it was active with more than that many samples
/// of its lifetime left, so every active grain is free once its lifetime is over.
pub proof fn lemma_idle_pool_decays(gs: Seq<Grain>, len: int, speeds: Seq<i32>)
    requires
        forall|i: int| 0 <= i < gs.len() ==> #[trigger] gs[i].wf(),
    ensures
        run_idle(gs, len, speeds).len() == gs.len(),
        forall|i: int| 0 <= i < gs.len() ==> (#[trigger] run_idle(gs, len, speeds)[i]).active
            == (gs[i].active && gs[i].elapsed + speeds.len() < gs[i].window),
    decreases speeds.len(),
{
    lemma_idle_run_tracks(gs, len, speeds);
}

proof fn lemma_idle_run_tracks(gs: Seq<Grain>, len: int, speeds: Seq<i32>)
    requires
        forall|i: int| 0 <= i < gs.len() ==> #[trigger] gs[i].wf(),
    ensures
        run_idle(gs, len, speeds).len() == gs.len(),
        forall|i: int| 0 <= i < gs.len() ==> {
            let g = #[trigger] run_idle(gs, len, speeds)[i];
            &&& g.active == (gs[i].active && gs[i].elapsed + speeds.len() < gs[i].window)
            &&& g.window == gs[i].window
            &&& g.active ==> g.elapsed == gs[i].elapsed + speeds.len()
        },
    decreases speeds.len(),
{
    if speeds.len() > 0 {
        let rest = speeds.drop_last();
        lemma_idle_run_tracks(gs, len, rest);
        let prev = run_idle(gs, len, rest);
        assert forall|i: int| 0 <= i < gs.len() implies {
            let g = #[trigger] run_idle(gs, len, speeds)[i];
            &&& g.active == (gs[i].active && gs[i].elapsed + speeds.len() < gs[i].window)
            &&& g.window == gs[i].window
            &&& g.active ==> g.elapsed == gs[i].elapsed + speeds.len()
        } by {
            assert(run_idle(gs, len, speeds)[i] == prev[i].next(len, speeds.last() as int));
            assert(rest.len() + 1 == speeds.len());
            let p = prev[i];
            assert(p.active == (gs[i].active && gs[i].elapsed + rest.len() < gs[i].window));
            assert(p.window == gs[i].window);
            assert(gs[i].wf());
        }
    } else {
        assert forall|i: int| 0 <= i < gs.len() implies {
            let g = #[trigger] run_idle(gs, len, speeds)[i];
            &&& g.active == (gs[i].active && gs[i].elapsed + speeds.len() < gs[i].window)
            &&& g.window == gs[i].window
            &&& g.active ==> g.elapsed == gs[i].elapsed + speeds.len()
        } by {
            assert(run_idle(gs, len, speeds) == gs);
            assert(gs[i].wf());
        }
    }
}

/// Every read offset up to the longest grain period, `sample_rate *
/// history_seconds()` samples, lies within the history that `new` sizes,
/// with room for interpolation.
pub proof fn lemma_history_covers_longest_grain(sample_rate: int, whole: int)
    requires
        sample_rate > 0,
        0 <= whole <= sample_rate * history_seconds(),
    ensures
        whole + 1 < history_capacity(sample_rate),
{
}

/// The granular pitch-shifting engine for one channel.
pub struct Grains {
    pub grain_delay_line: DelayLine,
    pub grains: Vec<Grain>,
    pub phasor: Phasor,
    pub delta: Delta,
}

impl Grains {
    /// Holds for an engine made by `new` and kept by `process`.
    pub open spec fn wf(&self) -> bool {
        &&& self.grain_delay_line.wf()
        &&& self.grains@.len() == POOL_SIZE
        &&& forall|i: int| 0 <= i < self.grains@.len() ==> #[trigger] self.grains@[i].wf()
        &&& self.phasor.sample_rate > 0
        &&& self.delta.previous == self.phasor.phase
    }

    /// Whether the phase wraps on this sample, for a hint of `freq_mhz` millihertz.
    pub open spec fn triggers(&self, freq_mhz: int, speed: int) -> bool {
        let inc = phase_increment(grain_freq(freq_mhz, speed) * VOICES, self.phasor.sample_rate as int);
        self.phasor.phase + inc >= CYCLE
    }

    /// The pool once the trigger of this sample, if any, has been handled.
    pub open spec fn after_trigger(&self, speed: int, freq: Option<u32>) -> Seq<Grain> {
        match freq {
            None => self.grains@,
            Some(f) => {
                if self.triggers(f as int, speed) {
                    let gf = grain_freq(f as int, speed);
                    assign(
                        self.grains@,
                        started(
                            gf,
                            window_len(self.phasor.sample_rate as int, gf),
                            speed,
                            self.grain_delay_line@.len() as int,
                        ),
                    )
                } else {
                    self.grains@
                }
            },
        }
    }

    /// At zero speed (no pitch shift) the grain frequency is zero, so the phase
    /// never moves and no grain is ever triggered.
    pub proof fn lemma_zero_speed_never_triggers(&self, freq_mhz: int)
        requires
            self.wf(),
            0 <= freq_mhz,
        ensures
            grain_freq(freq_mhz, 0) == 0,
            !self.triggers(freq_mhz, 0),
    {
        assert(abs(0) == 0);
        assert(freq_mhz * 0 == 0);
        assert(0 * CYCLE / (self.phasor.sample_rate * 1000) == 0);
    }

    /// An engine for `sample_rate` samples per second, with all grains free and
    /// a silent history; `None` for a sample rate of zero.
    pub fn new(sample_rate: u32) -> (r: Option<Grains>)
        ensures
            r is None <==> sample_rate == 0,
            r matches Some(g) ==> {
                &&& g.wf()
                &&& g.grain_delay_line@ == Seq::new(history_capacity(sample_rate as int) as nat, |k: int| 0i32)
                &&& forall|i: int| 0 <= i < g.grains@.len() ==> !(#[trigger] g.grains@[i]).active
                &&& g.phasor.sample_rate == sample_rate
                &&& g.phasor.phase == 0
            },
    {
        if sample_rate == 0 {
            return None;
        }
        let min_grain_freq: u64 = GRAIN_FREQ_MULTIPLIER * MIN_PITCH_SPEED;
        let seconds: u64 = (ONE + min_grain_freq - 1) / min_grain_freq;
        assert(seconds == 1);
        let capacity: u64 = sample_rate as u64 * seconds + 2;
        let mut grains: Vec<Grain> = Vec::new();
        while (grains.len() as u64) < POOL_SIZE
            invariant
                grains@.len() <= POOL_SIZE,
                forall|i: int| 0 <= i < grains@.len() ==> !(#[trigger] grains@[i]).active && grains@[i].wf(),
            decreases POOL_SIZE - grains@.len(),
        {
            grains.push(Grain::new());
        }
        Some(Grains {
            grain_delay_line: DelayLine::new(capacity),
            grains,
            phasor: Phasor::new(sample_rate),
            delta: Delta::new(),
        })
    }

    /// The grain frequency, in millihertz, for a fundamental of `freq_mhz`
    /// millihertz at a Q16 `speed`.
    pub fn get_grain_freq(freq_mhz: u32, speed: i32) -> (r: u64)
        ensures
            r == grain_freq(freq_mhz as int, speed as int),
            r <= 0x8000_0000_0000,
    {
        let d: u64 = freq_mhz as u64 / (GRAIN_FREQ_MULTIPLIER * 1000);
        let divisor: u64 = if d > 0 { d } else { 1 };
        let magnitude: u64 = if speed < 0 { (-(speed as i64)) as u64 } else { speed as u64 };
        assert(freq_mhz * magnitude <= 0x1_0000_0000 * 0x8000_0000) by (nonlinear_arith)
            requires freq_mhz < 0x1_0000_0000, magnitude <= 0x8000_0000;
        let r = (freq_mhz as u64 * magnitude) / (ONE * divisor);
        proof {
            vstd::arithmetic::div_mod::lemma_div_is_ordered(
                freq_mhz * magnitude,
                0x1_0000_0000int * 0x8000_0000,
                ONE * divisor,
            );
            vstd::arithmetic::div_mod::lemma_div_is_ordered_by_denominator(
                0x1_0000_0000int * 0x8000_0000,
                ONE as int,
                ONE * divisor,
            );
        }
        r
    }

    /// Offers a new grain of `freq_mhz` millihertz at `speed` to the pool: the
    /// first free grain takes it; when none is free, nothing happens.
    fn set_grain_parameters(&mut self, freq_mhz: u64, speed: i32)
        requires
            old(self).wf(),
            0 < freq_mhz,
        ensures
            final(self).wf(),
            final(self).grain_delay_line == old(self).grain_delay_line,
            final(self).phasor == old(self).phasor,
            final(self).delta == old(self).delta,
            final(self).grains@ == assign(
                old(self).grains@,
                started(
                    freq_mhz as int,
                    window_len(old(self).phasor.sample_rate as int, freq_mhz as int),
                    speed as int,
                    old(self).grain_delay_line@.len() as int,
                ),
            ),
    {
        let window: u64 = (self.phasor.sample_rate as u64 * 1000) / freq_mhz;
        proof {
            vstd::arithmetic::div_mod::lemma_div_is_ordered_by_denominator(
                self.phasor.sample_rate as int * 1000,
                1,
                freq_mhz as int,
            );
        }
        let capacity = self.grain_delay_line.capacity();
        let mut i: usize = 0;
        while i < self.grains.len() && !self.grains[i].is_free()
            invariant
                0 <= i <= self.grains@.len(),
                forall|j: int| 0 <= j < i ==> #[trigger] self.grains@[j].active,
            decreases self.grains@.len() - i,
        {
            i = i + 1;
        }
        if i < self.grains.len() {
            let ghost gs = self.grains@;
            let mut g = self.grains[i];
            g.set_parameters(freq_mhz, window, speed, capacity);
            self.grains.set(i, g);
            proof {
                assert(is_first_free(gs, i as int));
                let c = choose|k: int| is_first_free(gs, k);
                assert(c == i as int) by {
                    if c < i {
                        assert(gs[c].active);
                    } else if c > i {
                        assert(gs[i as int].active);
                    }
                }
            }
        } else {
            proof {
                assert(!exists|k: int| is_first_free(self.grains@, k));
            }
        }
    }

    /// Processes one input sample and returns one output sample.
    ///
    /// `speed` is the Q16 playback speed, `1 - 2^(pitch / 12)`; `freq` is the
    /// fundamental frequency of the input in millihertz, when known. With a
    /// hint the phasor advances at `VOICES` times the grain frequency and each
    /// wrap of its phase offers a new grain to the pool; without one nothing is
    /// triggered. Then every grain plays one sample from the history, the sum
    /// is scaled by `2 / VOICES`, and only then is `input` written into the
    /// history.
    pub fn process(&mut self, input: i32, speed: i32, freq: Option<u32>) -> (r: i64)
        requires
            old(self).wf(),
        ensures
            final(self).wf(),
            freq is None ==> final(self).phasor == old(self).phasor,
            freq matches Some(f) ==> final(self).phasor.phase == advance(
                old(self).phasor.phase as int,
                phase_increment(grain_freq(f as int, speed as int) * VOICES, old(self).phasor.sample_rate as int),
            ),
            final(self).phasor.sample_rate == old(self).phasor.sample_rate,
            final(self).grains@ == stepped(
                old(self).after_trigger(speed as int, freq),
                old(self).grain_delay_line@.len() as int,
                speed as int,
            ),
            r == normalized(total(old(self).after_trigger(speed as int, freq), old(self).grain_delay_line@)),
            final(self).grain_delay_line@ == crate::delay_line::pushed(old(self).grain_delay_line@, input),
    {
        match freq {
            Some(f) => {
                let gf = Self::get_grain_freq(f, speed);
                let phase = self.phasor.process(gf * VOICES);
                let trigger = self.delta.process(phase) < 0;
                if trigger {
                    proof {
                        if gf == 0 {
                            assert(0 * CYCLE / (self.phasor.sample_rate * 1000) == 0);
                        }
                    }
                    self.set_grain_parameters(gf, speed);
                }
            },
            None => {},
        }
        let ghost assigned = self.grains@;
        let ghost line = self.grain_delay_line@;
        let ghost phasor = self.phasor;
        assert(assigned == old(self).after_trigger(speed as int, freq));
        let mut sum: i64 = 0;
        let mut i: usize = 0;
        while i < self.grains.len()
            invariant
                self.wf(),
                self.grain_delay_line@ == line,
                self.phasor == phasor,
                0 <= i <= self.grains@.len() == assigned.len(),
                forall|j: int| 0 <= j < i ==> #[trigger] self.grains@[j] == assigned[j].next(line.len() as int, speed as int),
                forall|j: int| i <= j < assigned.len() ==> #[trigger] self.grains@[j] == assigned[j],
                sum == total(assigned.take(i as int), line),
                -0x8000_0000 * i <= sum <= 0x8000_0000 * i,
            decreases assigned.len() - i,
        {
            let mut g = self.grains[i];
            let o = g.process(&self.grain_delay_line, speed);
            self.grains.set(i, g);
            proof {
                assert(assigned.take(i + 1).drop_last() =~= assigned.take(i as int));
            }
            sum = sum + o;
            i = i + 1;
        }
        proof {
            assert(assigned.take(i as int) =~= assigned);
            assert(self.grains@ =~= stepped(assigned, line.len() as int, speed as int));
        }
        let out = floor_div(sum * 2, VOICES as i64);
        self.grain_delay_line.write(input);
        out
    }
}

} // verus!
