//! Behavioral tests for waveform extraction and normalization.

use aud::waveform::{generate_waveform, normalize_waveform};
use aud::SCALE;

#[test]
fn envelope_has_exactly_target_width_elements() {
    for &n in &[0usize, 1, 5, 100, 4410] {
        let samples: Vec<i16> = (0..n).map(|t| (t % 300) as i16).collect();
        for &width in &[1usize, 3, 100] {
            let env = generate_waveform(&samples, 1, width);
            assert_eq!(env.len(), width);
        }
    }
}

#[test]
fn normalization_peaks_at_exactly_one() {
    // Three one-sample buckets with magnitudes 100, 200, 400.
    let samples: Vec<i16> = vec![100, -200, 400];
    let env = generate_waveform(&samples, 1, 3);
    assert_eq!(env, vec![100 * SCALE / 400, 200 * SCALE / 400, SCALE]);
    assert_eq!(*env.iter().max().unwrap(), SCALE);
    assert!(env.iter().all(|&v| v <= SCALE));
}

#[test]
fn silent_input_gives_all_zeros_without_error() {
    let samples: Vec<i16> = vec![0; 10_000];
    let env = generate_waveform(&samples, 2, 50);
    assert_eq!(env, vec![0u64; 50]);
    let empty: Vec<i16> = Vec::new();
    let env = generate_waveform(&empty, 1, 7);
    assert_eq!(env, vec![0u64; 7]);
}

#[test]
fn constant_tone_yields_flat_envelope_of_ones() {
    // Ten seconds of a mono stream at 44100 Hz, constant magnitude:
    // every bucket has the same mean, so after normalization every one
    // of the 100 values is exactly 1.0.
    let samples: Vec<i16> = vec![12_000; 441_000];
    let env = generate_waveform(&samples, 1, 100);
    assert_eq!(env.len(), 100);
    assert!(env.iter().all(|&v| v == SCALE), "envelope not flat: {:?}", env);
}

#[test]
fn buckets_past_the_data_are_zero() {
    // Five frames but ten buckets: one frame per bucket, then zeros.
    let samples: Vec<i16> = vec![10, 20, 30, 40, 50];
    let env = generate_waveform(&samples, 1, 10);
    assert_eq!(env.len(), 10);
    // Peak is the 50 sample; earlier buckets scale against it.
    assert_eq!(env[4], SCALE);
    assert_eq!(env[0], 10 * SCALE / 50);
    for k in 5..10 {
        assert_eq!(env[k], 0);
    }
}

#[test]
fn stereo_stream_reads_one_sample_per_frame() {
    // Two channels: the extractor steps by the channel count, reading
    // only the first channel of each frame.
    let samples: Vec<i16> = vec![100, 900, -300, 900];
    let env = generate_waveform(&samples, 2, 2);
    assert_eq!(env, vec![100 * SCALE / 300, SCALE]);
}

#[test]
fn normalize_waveform_rescales_in_place() {
    let mut wave: Vec<u64> = vec![0, 128, 256, 512];
    normalize_waveform(&mut wave);
    assert_eq!(wave, vec![0, SCALE / 4, SCALE / 2, SCALE]);

    let mut silent: Vec<u64> = vec![0, 0, 0];
    normalize_waveform(&mut silent);
    assert_eq!(silent, vec![0, 0, 0]);

    let mut empty: Vec<u64> = Vec::new();
    normalize_waveform(&mut empty);
    assert!(empty.is_empty());
}
