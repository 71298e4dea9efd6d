//! The bit-sequence framing format.
//!
//! A watermark is a flat sequence of single-bit values in three fixed
//! segments: an 8-bit alternating pilot pattern for threshold calibration,
//! a 16-bit big-endian length header giving the payload size in bytes, and
//! the payload itself, each byte expanded most-significant bit first.

use vstd::prelude::*;
use crate::errors::WatermarkError;
use crate::PILOT_LEN;

verus! {

/// Bit `i` of the pilot pattern: 0, 1, 0, 1, ...
pub open spec fn pilot_bit_spec(i: int) -> u8 {
    if i % 2 == 1 { 1u8 } else { 0u8 }
}

/// The whole pilot pattern as a sequence.
pub open spec fn pilot_seq() -> Seq<u8> {
    Seq::new(PILOT_LEN as nat, |i: int| pilot_bit_spec(i))
}

/// Bit of a 16-bit value at the given shift (0 = least significant).
pub open spec fn bit_at16(v: u16, shift: u16) -> u8 {
    ((v >> shift) & 1) as u8
}

/// Bit of a byte at the given shift (0 = least significant).
pub open spec fn bit_at8(b: u8, shift: u8) -> u8 {
    (b >> shift) & 1
}

/// The 16 header bits of a length value, most-significant bit first.
pub open spec fn len_bits(v: u16) -> Seq<u8> {
    Seq::new(16, |i: int| bit_at16(v, (15 - i) as u16))
}

/// The payload bits of a message, each byte most-significant bit first.
pub open spec fn payload_bits(msg: Seq<u8>) -> Seq<u8> {
    Seq::new(msg.len() * 8, |i: int| bit_at8(msg[i / 8], (7 - (i % 8)) as u8))
}

/// The complete bit sequence of a message: pilot, length header, payload.
pub open spec fn bit_sequence_spec(msg: Seq<u8>) -> Seq<u8> {
    pilot_seq() + len_bits(msg.len() as u16) + payload_bits(msg)
}

/// Total bit count of a watermark for a payload of `n` bytes.
pub open spec fn total_bits(n: int) -> int {
    PILOT_LEN + 16 + 8 * n
}

/// Builds the bit sequence for a message.
///
/// Returns `PayloadTooLarge`, and nothing else, exactly when the message is
/// longer than the 16-bit length header can record; it is rejected rather
/// than silently truncated.
pub fn build_bit_sequence(message: &Vec<u8>) -> (r: Result<Vec<u8>, WatermarkError>)
    ensures
        match r {
            Ok(bits) => message@.len() <= 0xFFFF && bits@ == bit_sequence_spec(message@),
            Err(e) => e == WatermarkError::PayloadTooLarge && message@.len() > 0xFFFF,
        },
{
    if message.len() > 0xFFFF {
        return Err(WatermarkError::PayloadTooLarge);
    }
    let n: u16 = message.len() as u16;
    let mut bits: Vec<u8> = Vec::new();

    let mut i: usize = 0;
    while i < PILOT_LEN
        invariant
            i <= PILOT_LEN,
            bits@.len() == i,
            forall|j: int| 0 <= j < i ==> bits@[j] == pilot_bit_spec(j),
        decreases PILOT_LEN - i,
    {
        if i % 2 == 1 {
            bits.push(1u8);
        } else {
            bits.push(0u8);
        }
        i += 1;
    }
    assert(bits@ =~= pilot_seq());

    let mut shift: u16 = 16;
    while shift > 0
        invariant
            shift <= 16,
            bits@.len() == PILOT_LEN + 16 - shift,
            bits@.subrange(0, PILOT_LEN as int) =~= pilot_seq(),
            forall|j: int| PILOT_LEN <= j < bits@.len()
                ==> bits@[j] == bit_at16(n, (15 - (j - PILOT_LEN)) as u16),
        decreases shift,
    {
        shift = shift - 1;
        bits.push(((n >> shift) & 1) as u8);
    }
    assert(bits@ =~= pilot_seq() + len_bits(n));

    let mut k: usize = 0;
    while k < message.len()
        invariant
            k <= message@.len(),
            message@.len() <= 0xFFFF,
            n == message@.len() as u16,
            bits@.len() == PILOT_LEN + 16 + 8 * k,
            bits@.subrange(0, PILOT_LEN + 16) =~= pilot_seq() + len_bits(n),
            forall|p: int| 24 <= p < 24 + 8 * k
                ==> #[trigger] bits@[p] == bit_at8(message@[(p - 24) / 8], (7 - ((p - 24) % 8)) as u8),
        decreases message@.len() - k,
    {
        let byte: u8 = message[k];
        let mut s: u8 = 8;
        while s > 0
            invariant
                s <= 8,
                k < message@.len(),
                byte == message@[k as int],
                bits@.len() == PILOT_LEN + 16 + 8 * k + (8 - s),
                bits@.subrange(0, PILOT_LEN + 16) =~= pilot_seq() + len_bits(n),
                forall|p: int| 24 <= p < 24 + 8 * k
                    ==> #[trigger] bits@[p] == bit_at8(message@[(p - 24) / 8], (7 - ((p - 24) % 8)) as u8),
                forall|p: int| 24 + 8 * k <= p < 24 + 8 * k + (8 - s)
                    ==> #[trigger] bits@[p] == bit_at8(message@[k as int], (7 - ((p - 24) % 8)) as u8),
            decreases s,
        {
            s = s - 1;
            bits.push((byte >> s) & 1);
            proof {
                let j = 8 * (k as int) + (7 - s);
                assert(j % 8 == 7 - s) by (nonlinear_arith)
                    requires 0 <= s < 8 && 0 <= k && j == 8 * (k as int) + (7 - s);
            }
        }
        k += 1;
        proof {
            assert forall|p: int| 24 <= p < 24 + 8 * k implies
                #[trigger] bits@[p] == bit_at8(message@[(p - 24) / 8], (7 - ((p - 24) % 8)) as u8)
            by {
                let j = p - 24;
                if 8 * (k - 1) <= j {
                    assert(j / 8 == k - 1 && 0 <= j % 8 < 8 && j % 8 == j - 8 * (k - 1)) by (nonlinear_arith)
                        requires 8 * (k - 1) <= j < 8 * k && 1 <= k;
                }
            }
        }
    }
    assert(bits@ =~= bit_sequence_spec(message@)) by {
        assert(bits@.len() == 24 + 8 * message@.len());
        assert forall|j: int| 0 <= j < bits@.len() implies
            bits@[j] == bit_sequence_spec(message@)[j]
        by {
            if j < PILOT_LEN + 16 {
                assert(bits@[j] == bits@.subrange(0, PILOT_LEN + 16)[j]);
            } else {
                assert((j - 24) / 8 < message@.len() && (j - 24) % 8 < 8) by (nonlinear_arith)
                    requires 24 <= j < 24 + 8 * message@.len();
            }
        }
    }
    Ok(bits)
}

} // verus!
