//! The encoder's verified half: framing and capacity.
//!
//! Embedding perturbs one frequency bin per bit, so the whole watermark must
//! fit within the usable bins of a single frame. The caller transforms each
//! frame, rescales the real and imaginary parts of usable bin `i` by a high
//! factor where bit `i` is 1 and a low factor where it is 0, leaves bins
//! beyond the bit sequence untouched, and transforms back.

use vstd::prelude::*;
use crate::bits::{bit_sequence_spec, build_bit_sequence, total_bits};
use crate::config::WatermarkConfig;
use crate::errors::WatermarkError;

verus! {

/// Builds the bit sequence to embed for a message, enforcing both capacity
/// rules: the payload must fit the 16-bit length header, and pilot, header
/// and payload together must fit the usable bins of one frame.
///
/// Succeeds exactly on messages within both bounds; an oversized message is
/// rejected before any embedding, never truncated.
pub fn encode_sample(message: &Vec<u8>, config: &WatermarkConfig) -> (r: Result<
    Vec<u8>,
    WatermarkError,
>)
    requires
        config.wf(),
    ensures
        match r {
            Ok(bits) => message@.len() <= 0xFFFF && total_bits(message@.len() as int)
                <= config.usable_bins_spec() && bits@ == bit_sequence_spec(message@),
            Err(WatermarkError::PayloadTooLarge) => message@.len() > 0xFFFF,
            Err(WatermarkError::CapacityExceeded) => message@.len() <= 0xFFFF && total_bits(
                message@.len() as int,
            ) > config.usable_bins_spec(),
            Err(_) => false,
        },
{
    let bits = match build_bit_sequence(message) {
        Ok(bits) => bits,
        Err(e) => {
            return Err(e);
        },
    };
    if bits.len() > config.usable_bins() {
        return Err(WatermarkError::CapacityExceeded);
    }
    Ok(bits)
}

} // verus!
