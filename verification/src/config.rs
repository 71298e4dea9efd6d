//! The immutable codec configuration shared by encoder and decoder.
//!
//! Both sides must derive frame length, start bin and pilot from the same
//! configuration value: any mismatch desynchronizes the bit-to-bin mapping.

use vstd::prelude::*;

verus! {

/// Configuration of the watermark codec.
///
/// `frame_len` is the number of time-domain samples per frame (and the
/// transform length). A real-input transform of that length yields
/// `frame_len / 2 + 1` frequency bins. Bins below `start_bin` are never
/// touched, protecting the low frequencies from audible distortion; each
/// bin at or above `start_bin` can carry one bit.
pub struct WatermarkConfig {
    /// Samples per frame; also the transform length.
    pub frame_len: usize,
    /// First frequency bin eligible to carry a bit.
    pub start_bin: usize,
}

impl WatermarkConfig {
    /// A configuration is well formed when the frame is non-trivial and the
    /// start bin leaves at least one usable bin in the spectrum.
    pub open spec fn wf(self) -> bool {
        &&& 2 <= self.frame_len
        &&& self.frame_len <= 0x1000000
        &&& self.start_bin < self.frame_len / 2 + 1
    }

    /// Number of complex bins a real-input transform of length `frame_len`
    /// produces.
    pub open spec fn spectrum_len_spec(self) -> int {
        self.frame_len / 2 + 1
    }

    /// Number of bins eligible to carry one bit each: the watermark capacity
    /// per frame, in bits.
    pub open spec fn usable_bins_spec(self) -> int {
        self.spectrum_len_spec() - self.start_bin
    }

    /// Number of complex bins of one transformed frame.
    pub fn spectrum_len(&self) -> (r: usize)
        requires
            self.wf(),
        ensures
            r == self.spectrum_len_spec(),
    {
        self.frame_len / 2 + 1
    }

    /// Watermark capacity of one frame, in bits.
    pub fn usable_bins(&self) -> (r: usize)
        requires
            self.wf(),
        ensures
            r == self.usable_bins_spec(),
    {
        self.spectrum_len() - self.start_bin
    }
}

/// The canonical configuration: 256-sample frames (32 ms at 8 kHz) and a
/// start bin of 10, leaving 119 usable bins per frame.
pub fn default_config() -> (r: WatermarkConfig)
    ensures
        r.wf(),
        r.frame_len == 256,
        r.start_bin == 10,
        r.usable_bins_spec() == 119,
{
    WatermarkConfig { frame_len: 256, start_bin: 10 }
}

} // verus!
