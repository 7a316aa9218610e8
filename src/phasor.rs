//! A phase accumulator: a ramp over one cycle that wraps with carry.
use vstd::prelude::*;

verus! {

/// One full cycle of phase: a phase `p` stands for the fraction `p / CYCLE`.
pub const CYCLE: u64 = 0x1_0000_0000;

/// The phase step per sample for a frequency of `freq_mhz` millihertz at
/// `sample_rate` samples per second, rounded down. A frequency of a full cycle
/// per sample or more steps by just under a cycle.
pub open spec fn phase_increment(freq_mhz: int, sample_rate: int) -> int {
    let exact = freq_mhz * CYCLE / (sample_rate * 1000);
    if exact < CYCLE { exact } else { CYCLE - 1 }
}

/// The phase after one step of `inc` from `phase`, less one cycle when it would
/// reach or pass a full cycle.
pub open spec fn advance(phase: int, inc: int) -> int {
    if phase + inc >= CYCLE { phase + inc - CYCLE } else { phase + inc }
}

/// The phase after `n` steps of `inc` from `phase`.
pub open spec fn advance_n(phase: int, inc: int, n: nat) -> int
    decreases n,
{
    if n == 0 { phase } else { advance(advance_n(phase, inc, (n - 1) as nat), inc) }
}

/// After `n` equal steps the phase is the start plus the steps, modulo one cycle.
pub proof fn lemma_advance_n_mod(phase: int, inc: int, n: nat)
    requires
        0 <= phase < CYCLE,
        0 <= inc < CYCLE,
    ensures
        advance_n(phase, inc, n) == (phase + n * inc) % (CYCLE as int),
        0 <= advance_n(phase, inc, n) < CYCLE,
    decreases n,
{
    let c = CYCLE as int;
    if n == 0 {
        vstd::arithmetic::div_mod::lemma_small_mod(phase as nat, c as nat);
    } else {
        let m = (n - 1) as nat;
        lemma_advance_n_mod(phase, inc, m);
        let prev = advance_n(phase, inc, m);
        vstd::arithmetic::div_mod::lemma_add_mod_noop(phase + m * inc, inc, c);
        vstd::arithmetic::div_mod::lemma_small_mod(inc as nat, c as nat);
        assert(phase + n * inc == phase + m * inc + inc) by (nonlinear_arith)
            requires n == m + 1;
        if prev + inc >= c {
            vstd::arithmetic::div_mod::lemma_mod_sub_multiples_vanish(prev + inc, c);
            vstd::arithmetic::div_mod::lemma_small_mod((prev + inc - c) as nat, c as nat);
        } else {
            vstd::arithmetic::div_mod::lemma_small_mod((prev + inc) as nat, c as nat);
        }
    }
}

/// A phase driven at a fixed increment that divides the cycle into `n` steps
/// is back where it started after `n` samples, and stays within one cycle on the way.
pub proof fn lemma_phase_returns(phase: int, inc: int, n: nat)
    requires
        0 <= phase < CYCLE,
        0 <= inc < CYCLE,
        n * inc == CYCLE,
    ensures
        advance_n(phase, inc, n) == phase,
        forall|i: nat| #![trigger advance_n(phase, inc, i)] 0 <= advance_n(phase, inc, i) < CYCLE,
{
    lemma_advance_n_mod(phase, inc, n);
    vstd::arithmetic::div_mod::lemma_mod_add_multiples_vanish(phase, CYCLE as int);
    vstd::arithmetic::div_mod::lemma_small_mod(phase as nat, CYCLE as nat);
    assert forall|i: nat| #![trigger advance_n(phase, inc, i)] 0 <= advance_n(phase, inc, i) < CYCLE by {
        lemma_advance_n_mod(phase, inc, i);
    }
}

/// A ramp in `[0, CYCLE)` that advances once per sample.
pub struct Phasor {
    pub sample_rate: u32,
    pub phase: u32,
}

impl Phasor {
    /// A phasor at phase zero for `sample_rate` samples per second.
    pub fn new(sample_rate: u32) -> (r: Phasor)
        requires
            sample_rate > 0,
        ensures
            r.sample_rate == sample_rate,
            r.phase == 0,
    {
        Phasor { sample_rate, phase: 0 }
    }

    /// The phase step for `freq_mhz` millihertz at this phasor's sample rate.
    pub fn increment(&self, freq_mhz: u64) -> (r: u32)
        requires
            self.sample_rate > 0,
        ensures
            r == phase_increment(freq_mhz as int, self.sample_rate as int),
    {
        let exact: u128 = (freq_mhz as u128) * (CYCLE as u128) / ((self.sample_rate as u128) * 1000);
        if exact < CYCLE as u128 {
            exact as u32
        } else {
            (CYCLE - 1) as u32
        }
    }

    /// Advances the phase by one sample at `freq_mhz` millihertz and returns the new phase.
    pub fn process(&mut self, freq_mhz: u64) -> (r: u32)
        requires
            old(self).sample_rate > 0,
        ensures
            final(self).sample_rate == old(self).sample_rate,
            final(self).phase == r,
            r == advance(
                old(self).phase as int,
                phase_increment(freq_mhz as int, old(self).sample_rate as int),
            ),
    {
        let inc = self.increment(freq_mhz);
        let sum: u64 = self.phase as u64 + inc as u64;
        let next: u64 = if sum >= CYCLE { sum - CYCLE } else { sum };
        self.phase = next as u32;
        self.phase
    }
}

} // verus!
