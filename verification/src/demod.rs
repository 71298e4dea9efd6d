//! The threshold-calibrated spectral demodulator.
//!
//! The decoder receives one magnitude per usable bin of the first frame,
//! as fixed-point integers, in the encoder's bin-scan order. The known
//! alternating pilot pattern occupies the first eight bins, so the mean
//! pilot magnitude is the midpoint between the mean of the bins the pilot
//! marks 1 and the mean of those it marks 0. A bin is classified as bit 1
//! exactly when eight times its magnitude exceeds the pilot magnitude sum:
//! the exact-arithmetic form of comparing against that midpoint, and one
//! that is invariant under rescaling the whole signal. Calibration happens
//! once, from the first frame's pilot; there is no per-frame recalibration.

use vstd::prelude::*;
use crate::PILOT_LEN;
use crate::bits::{
    bit_at16, bit_at8, bit_sequence_spec, len_bits, payload_bits, pilot_bit_spec, pilot_seq,
    total_bits,
};
use crate::errors::WatermarkError;
use crate::utf8::{is_utf8, validate_utf8};

verus! {

/// The mathematical model of a fixed-point magnitude sequence.
pub open spec fn mags_model(mags: Seq<u64>) -> Seq<int> {
    mags.map_values(|m: u64| m as int)
}

/// Sum of the eight pilot-bin magnitudes: eight times the calibrated
/// decision threshold.
pub open spec fn pilot_mag_sum(mags: Seq<int>) -> int {
    mags[0] + mags[1] + mags[2] + mags[3] + mags[4] + mags[5] + mags[6] + mags[7]
}

/// Classification of bin `i`: 1 exactly when its magnitude lies above the
/// calibrated threshold.
pub open spec fn classify_bit(mags: Seq<int>, i: int) -> u8 {
    if 8 * mags[i] > pilot_mag_sum(mags) { 1u8 } else { 0u8 }
}

/// All bins classified against the threshold, in bin-scan order.
pub open spec fn classified_bits(mags: Seq<int>) -> Seq<u8> {
    Seq::new(mags.len(), |i: int| classify_bit(mags, i))
}

/// Value of the 16-bit big-endian length header of a bit sequence.
pub open spec fn header_value(bits: Seq<u8>) -> int {
    bits[8] * 0x8000 + bits[9] * 0x4000 + bits[10] * 0x2000 + bits[11] * 0x1000 + bits[12] * 0x800
        + bits[13] * 0x400 + bits[14] * 0x200 + bits[15] * 0x100 + bits[16] * 0x80 + bits[17] * 0x40
        + bits[18] * 0x20 + bits[19] * 0x10 + bits[20] * 8 + bits[21] * 4 + bits[22] * 2 + bits[23]
}

/// Value of eight bits, most significant first.
pub open spec fn byte_from_bits(bs: Seq<u8>) -> u8 {
    (bs[0] * 128 + bs[1] * 64 + bs[2] * 32 + bs[3] * 16 + bs[4] * 8 + bs[5] * 4 + bs[6] * 2
        + bs[7]) as u8
}

/// The payload bytes a bit sequence declares, regrouped most-significant
/// bit first.
pub open spec fn payload_of(bits: Seq<u8>, n: int) -> Seq<u8> {
    Seq::new(n as nat, |k: int| byte_from_bits(bits.subrange(24 + 8 * k, 32 + 8 * k)))
}

/// What parsing a recovered bit sequence yields: the declared payload, or
/// the typed failure owed on a truncated or non-UTF-8 watermark.
pub open spec fn parse_spec(bits: Seq<u8>) -> Result<Seq<u8>, WatermarkError> {
    if bits.len() < 24 {
        Err(WatermarkError::TruncatedWatermark)
    } else {
        let n = header_value(bits);
        if bits.len() < 24 + 8 * n {
            Err(WatermarkError::TruncatedWatermark)
        } else if !is_utf8(payload_of(bits, n)) {
            Err(WatermarkError::InvalidPayloadEncoding)
        } else {
            Ok(payload_of(bits, n))
        }
    }
}

/// What decoding a magnitude sequence yields.
pub open spec fn decode_spec(mags: Seq<int>) -> Result<Seq<u8>, WatermarkError> {
    parse_spec(classified_bits(mags))
}

/// Classifies every bin against the threshold calibrated from the pilot.
pub fn classify_bins(mags: &Vec<u64>) -> (bits: Vec<u8>)
    requires
        mags@.len() >= PILOT_LEN,
    ensures
        bits@ == classified_bits(mags_model(mags@)),
{
    let s: u128 = mags[0] as u128 + mags[1] as u128 + mags[2] as u128 + mags[3] as u128 + mags[4]
        as u128 + mags[5] as u128 + mags[6] as u128 + mags[7] as u128;
    assert(s == pilot_mag_sum(mags_model(mags@)));
    let mut bits: Vec<u8> = Vec::new();
    let mut i: usize = 0;
    while i < mags.len()
        invariant
            mags@.len() >= 8,
            s == pilot_mag_sum(mags_model(mags@)),
            i <= mags@.len(),
            bits@.len() == i,
            forall|j: int| 0 <= j < i ==> bits@[j] == classify_bit(mags_model(mags@), j),
        decreases mags@.len() - i,
    {
        if (mags[i] as u128) * 8 > s {
            bits.push(1u8);
        } else {
            bits.push(0u8);
        }
        i += 1;
    }
    assert(bits@ =~= classified_bits(mags_model(mags@)));
    bits
}

/// Parses a recovered bit sequence: reads the length header, regroups the
/// declared number of payload bytes, and validates them as UTF-8.
pub fn parse_bits(bits: &Vec<u8>) -> (r: Result<Vec<u8>, WatermarkError>)
    requires
        forall|j: int| 0 <= j < bits@.len() ==> bits@[j] <= 1,
    ensures
        match r {
            Ok(payload) => parse_spec(bits@) == Ok::<Seq<u8>, WatermarkError>(payload@),
            Err(e) => parse_spec(bits@) == Err::<Seq<u8>, WatermarkError>(e),
        },
{
    if bits.len() < 24 {
        return Err(WatermarkError::TruncatedWatermark);
    }
    let n: usize = (bits[8] as usize) * 0x8000 + (bits[9] as usize) * 0x4000 + (bits[10] as usize)
        * 0x2000 + (bits[11] as usize) * 0x1000 + (bits[12] as usize) * 0x800 + (bits[13] as usize)
        * 0x400 + (bits[14] as usize) * 0x200 + (bits[15] as usize) * 0x100 + (bits[16] as usize)
        * 0x80 + (bits[17] as usize) * 0x40 + (bits[18] as usize) * 0x20 + (bits[19] as usize)
        * 0x10 + (bits[20] as usize) * 8 + (bits[21] as usize) * 4 + (bits[22] as usize) * 2 + (
    bits[23] as usize);
    assert(n == header_value(bits@));
    assert(n <= 0xFFFF);
    if bits.len() < 24 + 8 * n {
        return Err(WatermarkError::TruncatedWatermark);
    }
    let mut payload: Vec<u8> = Vec::new();
    let mut k: usize = 0;
    while k < n
        invariant
            n == header_value(bits@),
            n <= 0xFFFF,
            bits@.len() >= 24 + 8 * n,
            forall|j: int| 0 <= j < bits@.len() ==> bits@[j] <= 1,
            k <= n,
            payload@.len() == k,
            forall|j: int| 0 <= j < k ==> payload@[j] == byte_from_bits(
                bits@.subrange(24 + 8 * j, 32 + 8 * j),
            ),
        decreases n - k,
    {
        let p: usize = 24 + 8 * k;
        let byte: u8 = bits[p] * 128 + bits[p + 1] * 64 + bits[p + 2] * 32 + bits[p + 3] * 16
            + bits[p + 4] * 8 + bits[p + 5] * 4 + bits[p + 6] * 2 + bits[p + 7];
        proof {
            let sr = bits@.subrange(24 + 8 * (k as int), 32 + 8 * (k as int));
            assert(byte == byte_from_bits(sr));
        }
        payload.push(byte);
        k += 1;
    }
    assert(payload@ =~= payload_of(bits@, n as int));
    if !validate_utf8(&payload) {
        return Err(WatermarkError::InvalidPayloadEncoding);
    }
    Ok(payload)
}

/// Recovers the embedded message from the usable-bin magnitudes of the
/// first frame, with no side information beyond the shared pilot pattern:
/// calibrates the threshold from the pilot bins, classifies the rest, and
/// parses header and payload.
pub fn decode_watermark(mags: &Vec<u64>) -> (r: Result<Vec<u8>, WatermarkError>)
    ensures
        match r {
            Ok(payload) => decode_spec(mags_model(mags@)) == Ok::<Seq<u8>, WatermarkError>(
                payload@,
            ),
            Err(e) => decode_spec(mags_model(mags@)) == Err::<Seq<u8>, WatermarkError>(e),
        },
{
    if mags.len() < 24 {
        assert(classified_bits(mags_model(mags@)).len() < 24);
        return Err(WatermarkError::TruncatedWatermark);
    }
    let bits = classify_bins(mags);
    assert forall|j: int| 0 <= j < bits@.len() implies bits@[j] <= 1 by {
        assert(bits@[j] == classify_bit(mags_model(mags@), j));
    }
    parse_bits(&bits)
}

} // verus!
