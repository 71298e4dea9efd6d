//! The frame segmenter.
//!
//! Splits the sample buffer into fixed-length, non-overlapping frames in
//! temporal order, left to right with no gaps; the final frame is padded
//! with zeros up to the frame length, so every frame can be handed to a
//! transform of that length unchanged.

use vstd::prelude::*;
use vstd::arithmetic::div_mod::lemma_fundamental_div_mod_converse;

verus! {

/// The sample frame `f` holds at offset `j`: the source sample where one
/// exists, zero padding past the end of the buffer.
pub open spec fn frame_sample(samples: Seq<i16>, frame_len: int, f: int, j: int) -> i16 {
    if f * frame_len + j < samples.len() {
        samples[f * frame_len + j]
    } else {
        0i16
    }
}

/// Number of frames needed to cover `len` samples.
pub open spec fn frame_count(len: int, frame_len: int) -> int {
    (len + frame_len - 1) / frame_len
}

/// Segments the buffer into zero-padded frames of `frame_len` samples.
pub fn segment_frames(samples: &Vec<i16>, frame_len: usize) -> (frames: Vec<Vec<i16>>)
    requires
        1 <= frame_len,
        samples@.len() + frame_len < usize::MAX,
    ensures
        frames@.len() == frame_count(samples@.len() as int, frame_len as int),
        forall|f: int| 0 <= f < frames@.len() ==> (#[trigger] frames@[f])@.len() == frame_len,
        forall|f: int, j: int|
            0 <= f < frames@.len() && 0 <= j < frame_len ==> #[trigger] frames@[f]@[j]
                == frame_sample(samples@, frame_len as int, f, j),
{
    let len = samples.len();
    let mut frames: Vec<Vec<i16>> = Vec::new();
    let mut pos: usize = 0;
    proof {
        assert(frames@.len() * frame_len == 0) by (nonlinear_arith)
            requires
                frames@.len() == 0,
        ;
    }
    while pos < len
        invariant
            1 <= frame_len,
            len == samples@.len(),
            len + frame_len < usize::MAX,
            pos == frames@.len() * frame_len,
            pos < len + frame_len,
            forall|f: int| 0 <= f < frames@.len() ==> (#[trigger] frames@[f])@.len() == frame_len,
            forall|f: int, j: int|
                0 <= f < frames@.len() && 0 <= j < frame_len ==> #[trigger] frames@[f]@[j]
                    == frame_sample(samples@, frame_len as int, f, j),
        decreases len + frame_len - pos,
    {
        let mut frame: Vec<i16> = Vec::new();
        let mut j: usize = 0;
        while j < frame_len
            invariant
                j <= frame_len,
                pos < len,
                len == samples@.len(),
                len + frame_len < usize::MAX,
                frame@.len() == j,
                forall|t: int|
                    0 <= t < j ==> #[trigger] frame@[t] == (if pos + t < samples@.len() {
                        samples@[pos + t]
                    } else {
                        0i16
                    }),
            decreases frame_len - j,
        {
            if pos + j < len {
                frame.push(samples[pos + j]);
            } else {
                frame.push(0i16);
            }
            j += 1;
        }
        frames.push(frame);
        proof {
            let k = frames@.len() - 1;
            let flen = frame_len as int;
            assert(k * flen == pos) by (nonlinear_arith)
                requires
                    pos == k * flen,
            ;
            assert forall|t: int| 0 <= t < flen implies #[trigger] frames@[k]@[t] == frame_sample(
                samples@,
                flen,
                k,
                t,
            ) by {
                assert(frames@[k]@[t] == frame@[t]);
                assert(k * flen + t == pos + t);
            }
            assert((k + 1) * flen == k * flen + flen) by (nonlinear_arith);
        }
        pos += frame_len;
    }
    proof {
        let k = frames@.len() as int;
        let flen = frame_len as int;
        let n = samples@.len() as int;
        if n == 0 {
            assert(k * flen == pos && pos < flen);
            assert(k == 0) by (nonlinear_arith)
                requires
                    k * flen == pos && 0 <= pos < flen && k >= 0,
            ;
            assert(frame_count(0, flen) == 0) by {
                lemma_fundamental_div_mod_converse(flen - 1, flen, 0, flen - 1);
            }
        } else {
            assert(n <= k * flen && k * flen < n + flen);
            lemma_fundamental_div_mod_converse(n + flen - 1, flen, k, n + flen - 1 - k * flen);
        }
    }
    frames
}

} // verus!
