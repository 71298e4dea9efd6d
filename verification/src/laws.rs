//! Properties relating the encoder's framing to the decoder.

use vstd::prelude::*;
use crate::bits::{bit_at16, bit_at8, bit_sequence_spec, len_bits, pilot_seq, total_bits};
use crate::demod::{
    byte_from_bits, classified_bits, classify_bit, decode_spec, header_value, parse_spec,
    payload_of, pilot_mag_sum,
};
use crate::errors::WatermarkError;
use crate::utf8::is_utf8;

verus! {

/// Every extracted bit is a single-bit value.
proof fn lemma_bits_le1()
    by (bit_vector)
    ensures
        forall|v: u16, s: u16| #[trigger] bit_at16(v, s) <= 1,
        forall|b: u8, s: u8| #[trigger] bit_at8(b, s) <= 1,
{
}

/// A 16-bit value is recovered from its bits, most significant first.
proof fn lemma_u16_reconstruct(v: u16)
    by (bit_vector)
    ensures
        (bit_at16(v, 15) as int) * 0x8000 + (bit_at16(v, 14) as int) * 0x4000 + (bit_at16(v, 13) as int)
            * 0x2000 + (bit_at16(v, 12) as int) * 0x1000 + (bit_at16(v, 11) as int) * 0x800 + (bit_at16(
            v,
            10,
        ) as int) * 0x400 + (bit_at16(v, 9) as int) * 0x200 + (bit_at16(v, 8) as int) * 0x100 + (
        bit_at16(v, 7) as int) * 0x80 + (bit_at16(v, 6) as int) * 0x40 + (bit_at16(v, 5) as int) * 0x20
            + (bit_at16(v, 4) as int) * 0x10 + (bit_at16(v, 3) as int) * 8 + (bit_at16(v, 2) as int) * 4
            + (bit_at16(v, 1) as int) * 2 + (bit_at16(v, 0) as int) == v as int,
{
}

/// A byte is recovered from its bits, most significant first.
proof fn lemma_u8_reconstruct(b: u8)
    by (bit_vector)
    ensures
        (bit_at8(b, 7) as int) * 128 + (bit_at8(b, 6) as int) * 64 + (bit_at8(b, 5) as int) * 32 + (
        bit_at8(b, 4) as int) * 16 + (bit_at8(b, 3) as int) * 8 + (bit_at8(b, 2) as int) * 4 + (bit_at8(
            b,
            1,
        ) as int) * 2 + (bit_at8(b, 0) as int) == b as int,
{
}

/// Framing round trip: parsing any recovered bit sequence that carries a
/// message's watermark bits — whatever trailing bins follow them — yields
/// exactly that message.
pub proof fn lemma_parse_of_watermark_bits(msg: Seq<u8>, bits: Seq<u8>)
    requires
        msg.len() <= 0xFFFF,
        is_utf8(msg),
        bits.len() >= total_bits(msg.len() as int),
        forall|i: int| 0 <= i < total_bits(msg.len() as int) ==> bits[i] == bit_sequence_spec(
            msg,
        )[i],
    ensures
        parse_spec(bits) == Ok::<Seq<u8>, WatermarkError>(msg),
{
    let n = msg.len() as int;
    let v = msg.len() as u16;
    assert forall|i: int| 8 <= i < 24 implies bits[i] == bit_at16(v, (23 - i) as u16) by {
        assert(bits[i] == bit_sequence_spec(msg)[i]);
        assert(bit_sequence_spec(msg)[i] == len_bits(v)[i - 8]);
    }
    lemma_u16_reconstruct(v);
    assert(header_value(bits) == n);
    assert(bits.len() >= 24 + 8 * n);
    let payload = payload_of(bits, n);
    assert forall|k: int| 0 <= k < n implies payload[k] == msg[k] by {
        let sr = bits.subrange(24 + 8 * k, 32 + 8 * k);
        assert forall|j: int| 0 <= j < 8 implies sr[j] == bit_at8(msg[k], (7 - j) as u8) by {
            let i = 24 + 8 * k + j;
            assert(0 <= i < total_bits(msg.len() as int)) by (nonlinear_arith)
                requires
                    0 <= j < 8 && 0 <= k < n && i == 24 + 8 * k + j && n == msg.len(),
            ;
            assert(bits[i] == bit_sequence_spec(msg)[i]);
            assert((8 * k + j) / 8 == k && (8 * k + j) % 8 == j) by (nonlinear_arith)
                requires
                    0 <= j < 8 && 0 <= k,
            ;
            assert(8 * k + j < 8 * n) by (nonlinear_arith)
                requires
                    0 <= j < 8 && 0 <= k < n,
            ;
        }
        lemma_u8_reconstruct(msg[k]);
        assert(byte_from_bits(sr) == msg[k]);
    }
    assert(payload =~= msg);
}

/// End-to-end round trip over the ideal two-level channel: when every bin
/// carrying a 1 bit of a message's watermark has one magnitude and every
/// bin carrying a 0 bit a strictly smaller one, decoding recovers the
/// message exactly, whatever the absolute levels are.
pub proof fn lemma_watermark_round_trip(msg: Seq<u8>, mags: Seq<int>, lo: int, hi: int)
    requires
        msg.len() <= 0xFFFF,
        is_utf8(msg),
        0 <= lo < hi,
        mags.len() >= total_bits(msg.len() as int),
        forall|i: int| 0 <= i < total_bits(msg.len() as int) ==> mags[i] == (if bit_sequence_spec(
            msg,
        )[i] == 1 {
            hi
        } else {
            lo
        }),
    ensures
        decode_spec(mags) == Ok::<Seq<u8>, WatermarkError>(msg),
{
    lemma_bits_le1();
    let nbits = total_bits(msg.len() as int);
    let bits = classified_bits(mags);
    assert forall|i: int| 0 <= i < 8 implies bit_sequence_spec(msg)[i] == pilot_seq()[i] by {}
    assert(pilot_seq()[0] == 0 && pilot_seq()[1] == 1 && pilot_seq()[2] == 0 && pilot_seq()[3] == 1
        && pilot_seq()[4] == 0 && pilot_seq()[5] == 1 && pilot_seq()[6] == 0 && pilot_seq()[7]
        == 1);
    assert(pilot_mag_sum(mags) == 4 * lo + 4 * hi);
    assert forall|i: int| 0 <= i < nbits implies bits[i] == bit_sequence_spec(msg)[i] by {
        if bit_sequence_spec(msg)[i] == 1 {
            assert(mags[i] == hi);
            assert(8 * hi > 4 * lo + 4 * hi);
        } else {
            assert(bit_sequence_spec(msg)[i] == 0);
            assert(mags[i] == lo);
            assert(!(8 * lo > 4 * lo + 4 * hi));
        }
    }
    lemma_parse_of_watermark_bits(msg, bits);
}

/// Calibration is level-invariant: rescaling every magnitude by one
/// positive factor changes neither the classified bits nor the decoded
/// result, because the pilot-calibrated threshold tracks the signal level.
pub proof fn lemma_decode_level_invariant(mags: Seq<int>, c: int)
    requires
        c >= 1,
    ensures
        decode_spec(mags.map_values(|m: int| c * m)) == decode_spec(mags),
{
    let scaled = mags.map_values(|m: int| c * m);
    assert(scaled.len() == mags.len());
    if mags.len() < 24 {
        assert(classified_bits(scaled).len() < 24 && classified_bits(mags).len() < 24);
    } else {
        assert(pilot_mag_sum(scaled) == c * pilot_mag_sum(mags)) by {
            assert(scaled[0] == c * mags[0] && scaled[1] == c * mags[1] && scaled[2] == c * mags[2]
                && scaled[3] == c * mags[3] && scaled[4] == c * mags[4] && scaled[5] == c * mags[5]
                && scaled[6] == c * mags[6] && scaled[7] == c * mags[7]);
            assert(c * mags[0] + c * mags[1] + c * mags[2] + c * mags[3] + c * mags[4] + c * mags[5]
                + c * mags[6] + c * mags[7] == c * (mags[0] + mags[1] + mags[2] + mags[3] + mags[4]
                + mags[5] + mags[6] + mags[7])) by (nonlinear_arith);
        }
        assert forall|i: int| 0 <= i < mags.len() implies classify_bit(scaled, i) == classify_bit(
            mags,
            i,
        ) by {
            assert(scaled[i] == c * mags[i]);
            assert((8 * (c * mags[i]) > c * pilot_mag_sum(mags)) == (8 * mags[i] > pilot_mag_sum(
                mags,
            ))) by (nonlinear_arith)
                requires
                    c >= 1,
            ;
        }
        assert(classified_bits(scaled) =~= classified_bits(mags));
    }
}

} // verus!
