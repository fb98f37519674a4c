//! A phase-accumulating reader over a wavetable.
//!
//! The phase is the exact fraction `phase / rate` of a cycle, and each step adds
//! `increment / rate` to it modulo one, so after `k` steps from phase zero it is
//! exactly `(k · increment) mod rate` over `rate`: no error accumulates.

use vstd::prelude::*;
use crate::waveform::ONE;
use crate::wavetable::{amplitudes_in_range, Wavetable};

verus! {

/// The phase numerator after `k` steps of `increment` from `phase`, modulo `rate`.
pub open spec fn phase_after(phase: nat, increment: nat, rate: nat, k: nat) -> nat
    decreases k,
{
    if k == 0 {
        phase
    } else {
        (phase_after(phase, increment, rate, (k - 1) as nat) + increment) % rate
    }
}

/// The table index read at the phase `phase / rate`: `floor(phase · len / rate)`.
pub open spec fn index_at(phase: nat, len: nat, rate: nat) -> int {
    (phase * len) as int / rate as int
}

/// The sample read from `table` at the phase `phase / rate`.
pub open spec fn sample_at(table: Seq<i32>, phase: nat, rate: nat) -> i32 {
    table[index_at(phase, table.len(), rate)]
}

/// A reader over a wavetable that yields one sample per step.
pub struct Oscillator<'a> {
    table: &'a Wavetable,
    phase: u64,
    increment: u64,
    rate: u64,
}

impl<'a> Oscillator<'a> {
    /// The entries of the table read.
    pub closed spec fn table(&self) -> Seq<i32> {
        self.table@
    }

    /// The phase, as a numerator over `rate()`.
    pub closed spec fn phase(&self) -> nat {
        self.phase as nat
    }

    /// The phase advance per step, as a numerator over `rate()`.
    pub closed spec fn increment(&self) -> nat {
        self.increment as nat
    }

    /// The common denominator of phase and increment: the sample rate.
    pub closed spec fn rate(&self) -> nat {
        self.rate as nat
    }

    /// The phase stays in `[0, 1)`, the table is usable, and the frequency and
    /// the sample rate are the 32-bit values they were built from.
    pub open spec fn wf(&self) -> bool {
        &&& 0 < self.rate() <= u32::MAX
        &&& self.increment() <= u32::MAX
        &&& self.phase() < self.rate()
        &&& self.table().len() > 0
        &&& amplitudes_in_range(self.table())
    }

    /// `next` holds the table, increment and rate of `self` and is one step ahead.
    pub open spec fn stepped_to(&self, next: &Oscillator) -> bool {
        &&& next.table() == self.table()
        &&& next.increment() == self.increment()
        &&& next.rate() == self.rate()
        &&& next.phase() == (self.phase() + self.increment()) % self.rate()
    }

    /// `other` is in the same state as `self`.
    pub open spec fn same_as(&self, other: &Oscillator) -> bool {
        &&& other.table() == self.table()
        &&& other.increment() == self.increment()
        &&& other.rate() == self.rate()
        &&& other.phase() == self.phase()
    }

    /// The sample that the next step yields.
    pub open spec fn current(&self) -> i32 {
        sample_at(self.table(), self.phase(), self.rate())
    }

    /// The sample that the step after `k` steps yields.
    pub open spec fn sample_after(&self, k: nat) -> i32 {
        sample_at(self.table(), phase_after(self.phase(), self.increment(), self.rate(), k), self.rate())
    }

    pub(crate) fn new(table: &'a Wavetable, frequency: u32, sample_rate: u32) -> (r: Oscillator<'a>)
        requires
            table.wf(),
            sample_rate > 0,
        ensures
            r.wf(),
            r.table() == table@,
            r.phase() == 0,
            r.increment() == frequency,
            r.rate() == sample_rate,
    {
        Oscillator { table, phase: 0, increment: frequency as u64, rate: sample_rate as u64 }
    }

    /// Yields the sample at the current phase, then advances the phase by the
    /// increment modulo one cycle.
    pub fn next(&mut self) -> (r: i32)
        requires
            old(self).wf(),
        ensures
            final(self).wf(),
            r == old(self).current(),
            -ONE <= r <= ONE,
            old(self).stepped_to(&*final(self)),
    {
        let n: usize = self.table.len();
        assert((self.phase as u128) * (n as u128) <= u64::MAX * u64::MAX) by (nonlinear_arith)
            requires self.phase <= u64::MAX, n <= u64::MAX;
        let product: u128 = (self.phase as u128) * (n as u128);
        let index: u128 = product / (self.rate as u128);
        proof {
            let p = self.phase as int;
            let r = self.rate as int;
            assert(p * n < r * n) by (nonlinear_arith)
                requires p < r, n > 0;
            vstd::arithmetic::div_mod::lemma_multiply_divide_lt(p * n, r, n as int);
        }
        let sample = self.table.get(index as usize);
        self.phase = (self.phase + self.increment) % self.rate;
        sample
    }
}

/// Stepping once and then `k` times reaches the phase of `k + 1` steps.
pub proof fn lemma_phase_shift(phase: nat, increment: nat, rate: nat, k: nat)
    requires
        rate > 0,
    ensures
        phase_after((phase + increment) % rate, increment, rate, k)
            == phase_after(phase, increment, rate, k + 1),
    decreases k,
{
    let q = (phase + increment) % rate;
    if k > 0 {
        lemma_phase_shift(phase, increment, rate, (k - 1) as nat);
        assert(phase_after(q, increment, rate, k)
            == (phase_after(q, increment, rate, (k - 1) as nat) + increment) % rate);
    }
    assert(phase_after(phase, increment, rate, k + 1)
        == (phase_after(phase, increment, rate, k) + increment) % rate);
}

/// From phase zero, the phase after `k` steps is exactly `(k · increment) mod
/// rate` over `rate`: it lies in `[0, 1)` and carries no accumulated error.
pub proof fn lemma_phase_exact(increment: nat, rate: nat, k: nat)
    requires
        rate > 0,
    ensures
        phase_after(0, increment, rate, k) == (k * increment) % rate,
        phase_after(0, increment, rate, k) < rate,
    decreases k,
{
    if k == 0 {
        assert(k * increment == 0) by (nonlinear_arith)
            requires k == 0;
        vstd::arithmetic::div_mod::lemma_small_mod(0, rate);
    } else {
        let prev: int = (k - 1) * increment;
        lemma_phase_exact(increment, rate, (k - 1) as nat);
        vstd::arithmetic::div_mod::lemma_add_mod_noop_right(increment as int, prev, rate as int);
        assert(prev + increment == k * increment) by (nonlinear_arith)
            requires prev == (k - 1) * increment, k > 0;
    }
    vstd::arithmetic::div_mod::lemma_mod_bound((k * increment) as int, rate as int);
}

/// An oscillator started at phase zero yields, at step `k`, the table entry at
/// `floor(((k · increment) mod rate) · len / rate)`, a function of the table,
/// the frequency, the sample rate and `k` alone.
pub proof fn lemma_sample_exact(o: &Oscillator, k: nat)
    requires
        o.wf(),
        o.phase() == 0,
    ensures
        o.sample_after(k) == o.table()[
            index_at((k * o.increment()) % o.rate(), o.table().len(), o.rate())],
{
    lemma_phase_exact(o.increment(), o.rate(), k);
}

/// Two oscillators built over equal table contents with the same frequency and
/// sample rate yield the same sample at every step.
pub proof fn lemma_deterministic(a: &Oscillator, b: &Oscillator, k: nat)
    requires
        a.wf(),
        b.wf(),
        a.table() == b.table(),
        a.increment() == b.increment(),
        a.rate() == b.rate(),
        a.phase() == 0,
        b.phase() == 0,
    ensures
        a.sample_after(k) == b.sample_after(k),
{
    lemma_sample_exact(a, k);
    lemma_sample_exact(b, k);
}

} // verus!
