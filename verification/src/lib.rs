//! Frame-wise FFT watermark codec: embeds a short message into a PCM audio
//! signal by perturbing the magnitude of selected frequency-domain bins, and
//! recovers it from the perturbed signal alone.
//!
//! This crate holds the verified core: the bit-sequence framing format, the
//! capacity rules, the frame segmenter, the threshold-calibrated demodulator,
//! and the integer model of sample quantization. The Fourier transform itself
//! and all audio I/O live outside the library, in its callers.

use vstd::prelude::*;

pub mod bits;
pub mod config;
pub mod demod;
pub mod encode;
pub mod errors;
pub mod laws;
pub mod quantize;
pub mod segment;
pub mod utf8;

verus! {

/// The number of bits in the calibration pilot pattern.
pub const PILOT_LEN: usize = 8;

} // verus!
