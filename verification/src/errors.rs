//! The codec's error taxonomy.

use vstd::prelude::*;

verus! {

/// Failures the codec reports instead of panicking.
///
/// Capacity errors are raised before any embedding happens; decode-integrity
/// errors are expected runtime conditions on corrupted or unwatermarked
/// input, not programming errors.
#[derive(Clone, Copy, Debug, PartialEq, Eq, Structural)]
pub enum WatermarkError {
    /// The message is longer than the 16-bit length header can record.
    PayloadTooLarge,
    /// Pilot, header and payload together need more bits than the usable
    /// bins of one frame can carry.
    CapacityExceeded,
    /// The signal holds fewer usable bins than the declared watermark needs.
    TruncatedWatermark,
    /// The recovered payload bytes are not valid UTF-8.
    InvalidPayloadEncoding,
}

} // verus!
