//! End-to-end runs through a real Fourier transform: embed the watermark in
//! an audio signal, quantize to 16-bit samples, and recover the message
//! from the perturbed samples alone.

use fft_watermark::config::default_config;
use fft_watermark::demod::decode_watermark;
use fft_watermark::encode::encode_sample;
use fft_watermark::segment::segment_frames;
use realfft::RealFftPlanner;

const HIGH_SCALE: f32 = 1.5;
const LOW_SCALE: f32 = 0.5;
const MAG_FIXED_POINT: f32 = 1048576.0;

/// An impulse train: one strong sample at the start of each frame, so each
/// frame's spectrum has a flat magnitude across all bins.
fn impulse_train(frames: usize, frame_len: usize, amplitude: i16) -> Vec<i16> {
    let mut samples = vec![0i16; frames * frame_len];
    for f in 0..frames {
        samples[f * frame_len] = amplitude;
    }
    samples
}

/// Embeds the bit sequence into the audio and returns the watermarked
/// 16-bit samples, mirroring what a caller of the library does around the
/// transform.
fn embed(samples: &[i16], bits: &[u8], frame_len: usize, start_bin: usize) -> Vec<i16> {
    let mut planner = RealFftPlanner::<f32>::new();
    let fft = planner.plan_fft_forward(frame_len);
    let ifft = planner.plan_fft_inverse(frame_len);
    let frames = segment_frames(&samples.to_vec(), frame_len);
    let mut output: Vec<f32> = Vec::new();
    for frame in &frames {
        let mut buffer: Vec<f32> = frame.iter().map(|&s| s as f32 / 32768.0).collect();
        let mut spectrum = fft.make_output_vec();
        fft.process(&mut buffer, &mut spectrum).unwrap();
        for (i, bin) in spectrum[start_bin..].iter_mut().enumerate() {
            if i < bits.len() {
                let scale = if bits[i] == 1 { HIGH_SCALE } else { LOW_SCALE };
                bin.re *= scale;
                bin.im *= scale;
            }
        }
        // The inverse transform demands exactly real values at the DC and
        // Nyquist bins; the forward transform can leave rounding residue.
        spectrum[0].im = 0.0;
        spectrum[frame_len / 2].im = 0.0;
        ifft.process(&mut spectrum, &mut buffer).unwrap();
        output.extend(buffer.iter().map(|x| x / frame_len as f32));
    }
    output.truncate(samples.len());
    output
        .iter()
        .map(|&v| (v.clamp(-1.0, 1.0) * 32767.0).round() as i16)
        .collect()
}

/// Transforms the first frame of the received samples and returns the
/// usable-bin energies as fixed-point integers, in the encoder's bin-scan
/// order.
fn first_frame_magnitudes(samples: &[i16], frame_len: usize, start_bin: usize) -> Vec<u64> {
    let mut planner = RealFftPlanner::<f32>::new();
    let fft = planner.plan_fft_forward(frame_len);
    let frames = segment_frames(&samples.to_vec(), frame_len);
    let mut buffer: Vec<f32> = frames[0].iter().map(|&s| s as f32 / 32768.0).collect();
    let mut spectrum = fft.make_output_vec();
    fft.process(&mut buffer, &mut spectrum).unwrap();
    spectrum[start_bin..]
        .iter()
        .map(|c| ((c.re * c.re + c.im * c.im) * MAG_FIXED_POINT) as u64)
        .collect()
}

fn run_pipeline(message: &[u8], amplitude: i16) -> Vec<u8> {
    let config = default_config();
    let bits = encode_sample(&message.to_vec(), &config).unwrap();
    let audio = impulse_train(4, config.frame_len, amplitude);
    let watermarked = embed(&audio, &bits, config.frame_len, config.start_bin);
    let mags = first_frame_magnitudes(&watermarked, config.frame_len, config.start_bin);
    decode_watermark(&mags).unwrap()
}

#[test]
fn fft_round_trip_ab() {
    assert_eq!(run_pipeline(b"AB", 16384), b"AB".to_vec());
}

#[test]
fn fft_round_trip_longer_message() {
    assert_eq!(run_pipeline(b"fourier", 16384), b"fourier".to_vec());
}

#[test]
fn fft_round_trip_is_level_invariant() {
    // The same message survives at a quarter of the signal level: the
    // pilot-calibrated threshold tracks the amplitude.
    assert_eq!(run_pipeline(b"AB", 16384), run_pipeline(b"AB", 4096));
}

#[test]
fn fft_round_trip_at_full_capacity() {
    // 24 + 8 * 11 = 112 bits in 119 usable bins.
    let message = b"elevenbytes";
    assert_eq!(message.len(), 11);
    assert_eq!(run_pipeline(message, 16384), message.to_vec());
}
