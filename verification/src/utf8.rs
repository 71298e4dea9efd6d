//! UTF-8 well-formedness of recovered payload bytes.
//!
//! A decoded payload that is not valid UTF-8 is an expected runtime
//! condition (a corrupted or unwatermarked signal), so the decoder tests it
//! and reports it as a typed error instead of panicking.

use vstd::prelude::*;

verus! {

/// Number of bytes of the UTF-8 sequence a lead byte announces; 0 for a
/// byte that can never start a sequence.
pub open spec fn utf8_len(b: u8) -> int {
    if b < 0x80 {
        1
    } else if 0xC2 <= b && b < 0xE0 {
        2
    } else if 0xE0 <= b && b < 0xF0 {
        3
    } else if 0xF0 <= b && b <= 0xF4 {
        4
    } else {
        0
    }
}

/// Whether a byte is a continuation byte.
pub open spec fn is_cont(b: u8) -> bool {
    0x80 <= b && b < 0xC0
}

/// The admissible range of the byte after the lead byte `b`; the narrowed
/// ranges exclude overlong forms, surrogates and values past U+10FFFF.
pub open spec fn second_byte_ok(b: u8, b2: u8) -> bool {
    if b == 0xE0 {
        0xA0 <= b2 && b2 < 0xC0
    } else if b == 0xED {
        0x80 <= b2 && b2 < 0xA0
    } else if b == 0xF0 {
        0x90 <= b2 && b2 < 0xC0
    } else if b == 0xF4 {
        0x80 <= b2 && b2 < 0x90
    } else {
        is_cont(b2)
    }
}

/// Whether a well-formed UTF-8 sequence starts at position `i` and fits
/// within the buffer.
pub open spec fn valid_scalar_at(s: Seq<u8>, i: int) -> bool {
    let b = s[i];
    let n = utf8_len(b);
    &&& 1 <= n
    &&& i + n <= s.len()
    &&& (2 <= n ==> second_byte_ok(b, s[i + 1]))
    &&& (3 <= n ==> is_cont(s[i + 2]))
    &&& (4 <= n ==> is_cont(s[i + 3]))
}

/// Whether the bytes from position `i` on are a well-formed UTF-8 suffix.
pub open spec fn is_utf8_from(s: Seq<u8>, i: int) -> bool
    decreases s.len() - i when 0 <= i <= s.len()
{
    if i >= s.len() {
        true
    } else if !valid_scalar_at(s, i) {
        false
    } else {
        is_utf8_from(s, i + utf8_len(s[i]))
    }
}

/// Whether a byte sequence is well-formed UTF-8.
pub open spec fn is_utf8(s: Seq<u8>) -> bool {
    is_utf8_from(s, 0)
}

/// Tests whether the bytes are well-formed UTF-8.
pub fn validate_utf8(bytes: &Vec<u8>) -> (r: bool)
    ensures
        r == is_utf8(bytes@),
{
    let len = bytes.len();
    let mut i: usize = 0;
    while i < len
        invariant
            i <= len,
            len == bytes@.len(),
            is_utf8(bytes@) == is_utf8_from(bytes@, i as int),
        decreases len - i,
    {
        let b = bytes[i];
        if b < 0x80 {
            i += 1;
        } else if b < 0xC2 {
            return false;
        } else if b < 0xE0 {
            if len - i < 2 || !(0x80 <= bytes[i + 1] && bytes[i + 1] < 0xC0) {
                return false;
            }
            i += 2;
        } else if b < 0xF0 {
            if len - i < 3 {
                return false;
            }
            let b2 = bytes[i + 1];
            let lo: u8 = if b == 0xE0 { 0xA0 } else { 0x80 };
            let hi: u8 = if b == 0xED { 0xA0 } else { 0xC0 };
            if !(lo <= b2 && b2 < hi) || !(0x80 <= bytes[i + 2] && bytes[i + 2] < 0xC0) {
                return false;
            }
            i += 3;
        } else if b <= 0xF4 {
            if len - i < 4 {
                return false;
            }
            let b2 = bytes[i + 1];
            let lo: u8 = if b == 0xF0 { 0x90 } else { 0x80 };
            let hi: u8 = if b == 0xF4 { 0x90 } else { 0xC0 };
            if !(lo <= b2 && b2 < hi) || !(0x80 <= bytes[i + 2] && bytes[i + 2] < 0xC0) || !(0x80
                <= bytes[i + 3] && bytes[i + 3] < 0xC0) {
                return false;
            }
            i += 4;
        } else {
            return false;
        }
    }
    true
}

} // verus!
