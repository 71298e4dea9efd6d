use fft_watermark::bits::build_bit_sequence;
use fft_watermark::config::{default_config, WatermarkConfig};
use fft_watermark::demod::{classify_bins, decode_watermark, parse_bits};
use fft_watermark::encode::encode_sample;
use fft_watermark::errors::WatermarkError;
use fft_watermark::quantize::requantize;
use fft_watermark::segment::segment_frames;
use fft_watermark::utf8::validate_utf8;

/// Magnitudes of an ideal channel carrying the given bits: a high level for
/// 1, a low level for 0, trailing bins at an arbitrary level.
fn ideal_mags(bits: &[u8], total_bins: usize, lo: u64, hi: u64, trailing: u64) -> Vec<u64> {
    let mut mags = Vec::new();
    for &b in bits {
        mags.push(if b == 1 { hi } else { lo });
    }
    while mags.len() < total_bins {
        mags.push(trailing);
    }
    mags
}

#[test]
fn bit_sequence_of_ab() {
    let bits = build_bit_sequence(&b"AB".to_vec()).unwrap();
    assert_eq!(bits.len(), 40);
    let expected: Vec<u8> = vec![
        0, 1, 0, 1, 0, 1, 0, 1, // pilot
        0, 0, 0, 0, 0, 0, 0, 0, 0, 0, 0, 0, 0, 0, 1, 0, // length header, value 2
        0, 1, 0, 0, 0, 0, 0, 1, // 'A'
        0, 1, 0, 0, 0, 0, 1, 0, // 'B'
    ];
    assert_eq!(bits, expected);
}

#[test]
fn round_trip_ab_over_ideal_channel() {
    let config = default_config();
    let bits = encode_sample(&b"AB".to_vec(), &config).unwrap();
    let mags = ideal_mags(&bits, 119, 100, 300, 40);
    let decoded = decode_watermark(&mags).unwrap();
    assert_eq!(decoded, b"AB".to_vec());
}

#[test]
fn round_trip_longer_message() {
    let config = default_config();
    let bits = encode_sample(&b"fourier".to_vec(), &config).unwrap();
    assert_eq!(bits.len(), 24 + 8 * 7);
    let mags = ideal_mags(&bits, 119, 7, 23, 1);
    let decoded = decode_watermark(&mags).unwrap();
    assert_eq!(decoded, b"fourier".to_vec());
}

#[test]
fn decode_is_level_invariant() {
    let config = default_config();
    let bits = encode_sample(&b"AB".to_vec(), &config).unwrap();
    let mags = ideal_mags(&bits, 119, 100, 300, 40);
    let scaled: Vec<u64> = mags.iter().map(|&m| m * 7).collect();
    assert_eq!(decode_watermark(&mags), decode_watermark(&scaled));
    assert_eq!(decode_watermark(&scaled).unwrap(), b"AB".to_vec());
}

#[test]
fn empty_message_round_trips() {
    let config = default_config();
    let bits = encode_sample(&Vec::new(), &config).unwrap();
    assert_eq!(bits.len(), 24);
    let mags = ideal_mags(&bits, 119, 50, 150, 60);
    let decoded = decode_watermark(&mags).unwrap();
    assert_eq!(decoded, Vec::<u8>::new());
}

#[test]
fn oversized_payload_is_rejected() {
    let config = default_config();
    let message = vec![0x41u8; 65536];
    assert_eq!(
        build_bit_sequence(&message).unwrap_err(),
        WatermarkError::PayloadTooLarge
    );
    assert_eq!(
        encode_sample(&message, &config).unwrap_err(),
        WatermarkError::PayloadTooLarge
    );
}

#[test]
fn header_limit_message_builds() {
    let message = vec![0x5Au8; 65535];
    let bits = build_bit_sequence(&message).unwrap();
    assert_eq!(bits.len(), 24 + 8 * 65535);
    // The header records the full length even though no default frame could
    // carry it.
    assert_eq!(
        encode_sample(&message, &default_config()).unwrap_err(),
        WatermarkError::CapacityExceeded
    );
}

#[test]
fn capacity_boundary_exact_fit() {
    // 40 usable bins: the 40 bits of a two-byte watermark fit exactly.
    let config = WatermarkConfig { frame_len: 98, start_bin: 10 };
    assert!(encode_sample(&b"AB".to_vec(), &config).is_ok());
    // One byte more needs 48 bits and must fail with a capacity error.
    assert_eq!(
        encode_sample(&b"ABC".to_vec(), &config).unwrap_err(),
        WatermarkError::CapacityExceeded
    );
}

#[test]
fn capacity_boundary_default_config() {
    let config = default_config();
    // 24 + 8 * 11 = 112 <= 119
    assert!(encode_sample(&vec![0x41u8; 11], &config).is_ok());
    // 24 + 8 * 12 = 120 > 119
    assert_eq!(
        encode_sample(&vec![0x41u8; 12], &config).unwrap_err(),
        WatermarkError::CapacityExceeded
    );
}

#[test]
fn truncated_watermark_too_few_bins() {
    let mags: Vec<u64> = vec![10; 23];
    assert_eq!(
        decode_watermark(&mags).unwrap_err(),
        WatermarkError::TruncatedWatermark
    );
}

#[test]
fn truncated_watermark_header_exceeds_bins() {
    // A watermark declaring two payload bytes needs 40 bins; give it 30.
    let bits = build_bit_sequence(&b"AB".to_vec()).unwrap();
    let mags = ideal_mags(&bits[..30], 30, 100, 300, 0);
    assert_eq!(
        decode_watermark(&mags).unwrap_err(),
        WatermarkError::TruncatedWatermark
    );
}

#[test]
fn non_utf8_payload_is_reported() {
    let config = default_config();
    let bits = encode_sample(&vec![0xFFu8, 0x41], &config).unwrap();
    let mags = ideal_mags(&bits, 119, 100, 300, 40);
    assert_eq!(
        decode_watermark(&mags).unwrap_err(),
        WatermarkError::InvalidPayloadEncoding
    );
}

#[test]
fn classify_and_parse_recover_bits() {
    let bits = build_bit_sequence(&b"AB".to_vec()).unwrap();
    let mags = ideal_mags(&bits, 119, 2, 10, 2);
    let classified = classify_bins(&mags);
    assert_eq!(&classified[..40], &bits[..]);
    assert_eq!(parse_bits(&classified).unwrap(), b"AB".to_vec());
}

#[test]
fn validate_utf8_matches_std_on_all_two_byte_strings() {
    for a in 0..=255u8 {
        for b in 0..=255u8 {
            let bytes = vec![a, b];
            let expected = std::str::from_utf8(&bytes).is_ok();
            assert_eq!(validate_utf8(&bytes), expected, "bytes {:02x} {:02x}", a, b);
        }
    }
}

#[test]
fn validate_utf8_matches_std_on_selected_strings() {
    let cases: Vec<Vec<u8>> = vec![
        Vec::new(),
        b"plain ascii".to_vec(),
        vec![0xC3, 0xA9],                   // e with acute accent
        vec![0xE2, 0x82, 0xAC],             // euro sign
        vec![0xF0, 0x9F, 0x8E, 0xB5],       // a musical note
        vec![0xED, 0xA0, 0x80],             // surrogate, invalid
        vec![0xC0, 0xAF],                   // overlong, invalid
        vec![0xF4, 0x90, 0x80, 0x80],       // past U+10FFFF, invalid
        vec![0xE2, 0x82],                   // truncated sequence
        vec![0x80],                         // lone continuation byte
        vec![0xF5, 0x80, 0x80, 0x80],       // lead byte out of range
    ];
    for bytes in cases {
        let expected = std::str::from_utf8(&bytes).is_ok();
        assert_eq!(validate_utf8(&bytes), expected, "bytes {:?}", bytes);
    }
}

#[test]
fn segment_frames_pads_final_frame() {
    let samples: Vec<i16> = vec![1, 2, 3, 4, 5];
    let frames = segment_frames(&samples, 2);
    assert_eq!(frames, vec![vec![1, 2], vec![3, 4], vec![5, 0]]);
}

#[test]
fn segment_frames_exact_cover_and_empty() {
    let samples: Vec<i16> = vec![-3, 7, 9, -1];
    let frames = segment_frames(&samples, 2);
    assert_eq!(frames, vec![vec![-3, 7], vec![9, -1]]);
    assert_eq!(segment_frames(&Vec::new(), 256), Vec::<Vec<i16>>::new());
}

#[test]
fn requantize_moves_each_sample_at_most_one_lsb() {
    for x in i16::MIN..=i16::MAX {
        let r = requantize(x);
        let diff = (r as i32) - (x as i32);
        assert!(-1 <= diff && diff <= 1, "sample {} requantized to {}", x, r);
    }
}

#[test]
fn requantize_exact_values() {
    assert_eq!(requantize(0), 0);
    assert_eq!(requantize(1), 1);
    assert_eq!(requantize(-1), -1);
    assert_eq!(requantize(16384), 16384);
    assert_eq!(requantize(16385), 16384);
    assert_eq!(requantize(32767), 32766);
    assert_eq!(requantize(-32768), -32767);
    assert_eq!(requantize(-16384), -16384);
}

#[test]
fn float_normalize_quantize_within_one_lsb() {
    for x in i16::MIN..=i16::MAX {
        let normalized = (x as f32) / 32768.0;
        let quantized = (normalized.clamp(-1.0, 1.0) * 32767.0).round() as i16;
        let diff = (quantized as i32) - (x as i32);
        assert!(-1 <= diff && diff <= 1, "sample {} quantized to {}", x, quantized);
    }
}
