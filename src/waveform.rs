//! Waveform functions: pure maps from a phase in `[0, 1)` to an amplitude in
//! `[-1, 1]`.

use vstd::prelude::*;

verus! {

/// The fixed-point unit: the amplitude `a` stands for the real value `a / ONE`.
pub const ONE: i32 = 1073741824;

/// The waveform shapes that a wavetable can be filled with.
#[derive(Clone, Copy, Debug, PartialEq, Eq, Structural)]
pub enum Waveform {
    /// A ramp from -1 at phase 0 up towards +1 just before phase 1.
    Sawtooth,
    /// +1 for the first half of the cycle, -1 for the second half.
    Square,
}

/// The sawtooth `2·p − 1` at the phase `p = num / den`, rounded down to the
/// fixed-point grid.
pub open spec fn sawtooth_at(num: int, den: int) -> int {
    (2 * num * ONE) / den - ONE
}

/// The square wave at the phase `num / den`.
pub open spec fn square_at(num: int, den: int) -> int {
    if 2 * num < den {
        ONE as int
    } else {
        -ONE
    }
}

impl Waveform {
    /// The amplitude of this shape at the phase `num / den`.
    pub open spec fn amplitude_at(self, num: int, den: int) -> int {
        match self {
            Waveform::Sawtooth => sawtooth_at(num, den),
            Waveform::Square => square_at(num, den),
        }
    }

    /// Evaluates this shape at the phase `num / den`.
    pub fn evaluate(self, num: u64, den: u64) -> (r: i32)
        requires
            num < den,
        ensures
            r == self.amplitude_at(num as int, den as int),
            -ONE <= r <= ONE,
    {
        match self {
            Waveform::Sawtooth => sawtooth(num, den),
            Waveform::Square => square(num, den),
        }
    }
}

/// The sawtooth waveform at the phase `num / den`.
pub fn sawtooth(num: u64, den: u64) -> (r: i32)
    requires
        num < den,
    ensures
        r == sawtooth_at(num as int, den as int),
        -ONE <= r <= ONE,
{
    let scaled: u128 = 2 * (num as u128) * (ONE as u128);
    let q: u128 = scaled / (den as u128);
    proof {
        let two_one: int = 2 * ONE;
        assert(scaled == num * two_one) by (nonlinear_arith)
            requires scaled == 2 * num * ONE, two_one == 2 * ONE;
        assert(num * two_one < den * two_one) by (nonlinear_arith)
            requires num < den, two_one > 0;
        vstd::arithmetic::div_mod::lemma_multiply_divide_lt(scaled as int, den as int, two_one);
    }
    (q as i64 - ONE as i64) as i32
}

/// The square waveform at the phase `num / den`.
pub fn square(num: u64, den: u64) -> (r: i32)
    requires
        num < den,
    ensures
        r == square_at(num as int, den as int),
        -ONE <= r <= ONE,
{
    if (num as u128) * 2 < den as u128 {
        ONE
    } else {
        -ONE
    }
}

} // verus!
