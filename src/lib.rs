//! A single-tone wavetable synthesiser core: waveform shapes, a precomputed
//! wavetable, a phase-accumulating oscillator over it, the request/reply bridge
//! between a real-time audio callback and a generation thread, and the adapter
//! that fans one sample per frame out over an interleaved buffer.
//!
//! Amplitudes are fixed-point: an `i32` value `a` stands for `a / ONE`, so the
//! unit range `[-1, 1]` is `[-ONE, ONE]`. Phases are exact fractions
//! `numerator / denominator`, which keeps the oscillator free of drift.

pub mod waveform;
pub mod wavetable;
pub mod oscillator;
pub mod bridge;
pub mod adapter;
