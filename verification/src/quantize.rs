//! The integer model of sample quantization.
//!
//! Loading divides each signed 16-bit sample by 32768 to normalize it into
//! [-1.0, 1.0]; writing multiplies by 32767, rounds to nearest (halves away
//! from zero) and clamps back into the 16-bit range. The divisor and
//! multiplier differ on purpose, mirroring the asymmetric signed range.
//! Composed, the two steps move a sample by at most one least significant
//! bit; this module states and proves that in exact integer arithmetic.

use vstd::prelude::*;
use vstd::arithmetic::div_mod::lemma_fundamental_div_mod_converse;

verus! {

/// What normalizing then re-quantizing a sample computes: the nearest
/// integer to `x * 32767 / 32768`, halves rounded away from zero. The
/// clamp never engages, since the value stays within the 16-bit range.
pub open spec fn requantize_spec(x: int) -> int {
    if x >= 0 {
        (x * 32767 + 16384) / 32768
    } else {
        -((-x * 32767 + 16384) / 32768)
    }
}

/// Exact division facts for one branch of `requantize`: the quotient is
/// the argument itself up to the rounding midpoint, one less beyond it.
proof fn lemma_requantize_cases(x: int)
    requires
        0 <= x <= 32768,
    ensures
        x <= 16384 ==> (x * 32767 + 16384) / 32768 == x,
        x > 16384 ==> (x * 32767 + 16384) / 32768 == x - 1,
{
    if x <= 16384 {
        assert(x * 32767 + 16384 == x * 32768 + (16384 - x)) by (nonlinear_arith);
        lemma_fundamental_div_mod_converse(x * 32767 + 16384, 32768, x, 16384 - x);
    } else {
        assert(x * 32767 + 16384 == (x - 1) * 32768 + (49152 - x)) by (nonlinear_arith);
        lemma_fundamental_div_mod_converse(x * 32767 + 16384, 32768, x - 1, 49152 - x);
    }
}

/// Round-trips one sample through normalization and quantization, in the
/// integer model. The result differs from the input by at most one least
/// significant bit.
pub fn requantize(x: i16) -> (r: i16)
    ensures
        r as int == requantize_spec(x as int),
        x as int - 1 <= r as int <= x as int + 1,
{
    proof {
        if x >= 0 {
            lemma_requantize_cases(x as int);
        } else {
            lemma_requantize_cases(-(x as int));
        }
    }
    if x >= 0 {
        let v: u32 = x as u32;
        let q: u32 = (v * 32767 + 16384) / 32768;
        q as i16
    } else {
        let y: u32 = (-(x as i32)) as u32;
        let q: u32 = (y * 32767 + 16384) / 32768;
        (-(q as i32)) as i16
    }
}

} // verus!
