//! A precomputed table holding one cycle of a waveform.

use vstd::prelude::*;
use crate::waveform::{Waveform, ONE};
use crate::oscillator::Oscillator;

verus! {

/// Why a wavetable could not be created.
#[derive(Clone, Copy, Debug, PartialEq, Eq, Structural)]
pub enum WavetableError {
    /// A table needs at least one entry.
    EmptyTable,
}

/// Why an oscillator could not be built over a wavetable.
#[derive(Clone, Copy, Debug, PartialEq, Eq, Structural)]
pub enum OscillatorError {
    /// The sample rate must be positive.
    ZeroSampleRate,
}

/// Every entry lies in the unit amplitude range.
pub open spec fn amplitudes_in_range(s: Seq<i32>) -> bool {
    forall|i: int| 0 <= i < s.len() ==> -ONE <= #[trigger] s[i] <= ONE
}

/// The table of `n` entries that samples `w` at the phases `i / n`.
pub open spec fn sampled(w: Waveform, n: nat) -> Seq<i32> {
    Seq::new(n, |i: int| w.amplitude_at(i, n as int) as i32)
}

/// One cycle of a waveform, sampled at evenly spaced phases.
pub struct Wavetable {
    entries: Vec<i32>,
}

impl View for Wavetable {
    type V = Seq<i32>;

    closed spec fn view(&self) -> Seq<i32> {
        self.entries@
    }
}

impl Wavetable {
    /// A usable table: not empty, every entry a unit-range amplitude.
    pub open spec fn wf(&self) -> bool {
        self@.len() > 0 && amplitudes_in_range(self@)
    }

    /// A table of `size` entries, all silent; `size == 0` is refused.
    pub fn create(size: usize) -> (r: Result<Wavetable, WavetableError>)
        ensures
            size == 0 <==> r is Err,
            r is Err ==> r == Err::<Wavetable, WavetableError>(WavetableError::EmptyTable),
            r matches Ok(t) ==> t.wf() && t@ == Seq::new(size as nat, |i: int| 0i32),
    {
        if size == 0 {
            return Err(WavetableError::EmptyTable);
        }
        let mut entries: Vec<i32> = Vec::new();
        let mut i: usize = 0;
        while i < size
            invariant
                i <= size,
                entries@ == Seq::new(i as nat, |j: int| 0i32),
            decreases size - i,
        {
            entries.push(0);
            i = i + 1;
        }
        let t = Wavetable { entries };
        assert(t@ == Seq::new(size as nat, |j: int| 0i32));
        Ok(t)
    }

    /// Overwrites every entry `i` with `w` at the phase `i / len`.
    pub fn fill(&mut self, w: Waveform)
        requires
            old(self).wf(),
        ensures
            final(self).wf(),
            final(self)@ == sampled(w, old(self)@.len()),
    {
        let n: usize = self.entries.len();
        let mut i: usize = 0;
        while i < n
            invariant
                i <= n,
                n == self.entries@.len(),
                n > 0,
                forall|j: int| 0 <= j < i ==> #[trigger] self.entries@[j] == w.amplitude_at(j, n as int),
                amplitudes_in_range(self.entries@),
            decreases n - i,
        {
            let a = w.evaluate(i as u64, n as u64);
            self.entries.set(i, a);
            i = i + 1;
        }
        assert(self@ == sampled(w, n as nat));
    }

    /// The number of entries.
    pub fn len(&self) -> (r: usize)
        ensures
            r == self@.len(),
    {
        self.entries.len()
    }

    /// The entry at `index`.
    pub fn get(&self, index: usize) -> (r: i32)
        requires
            index < self@.len(),
        ensures
            r == self@[index as int],
    {
        self.entries[index]
    }

    /// An oscillator at `frequency` Hz for output at `sample_rate` samples per
    /// second, starting at phase 0 and advancing `frequency / sample_rate` of a
    /// cycle per sample.
    pub fn oscillator(&self, frequency: u32, sample_rate: u32) -> (r: Result<Oscillator<'_>, OscillatorError>)
        requires
            self.wf(),
        ensures
            sample_rate == 0 <==> r is Err,
            r is Err ==> r == Err::<Oscillator<'_>, OscillatorError>(OscillatorError::ZeroSampleRate),
            r matches Ok(o) ==> {
                &&& o.wf()
                &&& o.table() == self@
                &&& o.phase() == 0
                &&& o.increment() == frequency
                &&& o.rate() == sample_rate
            },
    {
        if sample_rate == 0 {
            return Err(OscillatorError::ZeroSampleRate);
        }
        Ok(Oscillator::new(self, frequency, sample_rate))
    }
}

/// Filled with the sawtooth, a table of `n` entries holds exactly `2·i/n − 1`
/// at every index `i`, for every `n` that divides `2 · ONE` (each power of two
/// up to `2^31`); for other sizes the fixed-point entries are rounded down.
pub proof fn lemma_sawtooth_entries(n: nat, i: int)
    requires
        0 <= i < n,
        (2 * ONE) % (n as int) == 0,
    ensures
        n * sampled(Waveform::Sawtooth, n)[i] == (2 * i - n) * ONE,
{
    let two_one: int = 2 * ONE;
    let m: int = two_one / (n as int);
    vstd::arithmetic::div_mod::lemma_fundamental_div_mod(two_one, n as int);
    assert(two_one == n * m);
    assert(2 * i * ONE == (i * m) * n) by (nonlinear_arith)
        requires two_one == n * m, two_one == 2 * ONE;
    vstd::arithmetic::div_mod::lemma_div_by_multiple(i * m, n as int);
    assert(0 <= i * m < two_one) by (nonlinear_arith)
        requires 0 <= i < n, two_one == n * m, two_one > 0;
    let a: int = i * m - ONE;
    assert(sampled(Waveform::Sawtooth, n)[i] == a);
    assert(n * a == (2 * i - n) * ONE) by (nonlinear_arith)
        requires a == i * m - ONE, two_one == n * m, two_one == 2 * ONE;
}

} // verus!
