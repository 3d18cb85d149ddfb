//! Behavioral tests for the transform, run with the real `num` crate linked.

use fft_radix2::{fft, fft_freq, generate_sin_wave, normalize_complex_vector, Complex, FftError};

fn to_bits(samples: &[f32]) -> Vec<u32> {
    let mut out: Vec<u32> = Vec::new();
    for s in samples {
        out.push(s.to_bits());
    }
    out
}

fn spectrum_values(spectrum: &[Complex]) -> Vec<(f32, f32)> {
    let mut out: Vec<(f32, f32)> = Vec::new();
    for c in spectrum {
        out.push((f32::from_bits(c.re), f32::from_bits(c.im)));
    }
    out
}

#[test]
fn fft_preserves_power_of_two_length() {
    for n in [1usize, 2, 4, 8, 16, 64] {
        let tone = vec![0.5f32.to_bits(); n];
        let spectrum = fft(&tone).expect("power-of-two length must be accepted");
        assert_eq!(spectrum.len(), n);
    }
}

#[test]
fn fft_rejects_non_power_of_two_lengths() {
    for n in [0usize, 3, 5, 6, 7, 9, 12, 100] {
        let tone = vec![1.0f32.to_bits(); n];
        assert_eq!(fft(&tone), Err(FftError::InvalidLength));
    }
}

#[test]
fn fft_single_sample_is_identity() {
    let tone = vec![2.75f32.to_bits()];
    let spectrum = fft(&tone).unwrap();
    let vals = spectrum_values(&spectrum);
    assert_eq!(vals, vec![(2.75f32, 0.0f32)]);
}

#[test]
fn fft_dc_component_concentrates_at_bin_zero() {
    let c = 1.0f32;
    let n = 8usize;
    let tone = vec![c.to_bits(); n];
    let spectrum = fft(&tone).unwrap();
    let vals = spectrum_values(&spectrum);
    assert!((vals[0].0 - c * n as f32).abs() < 1e-3);
    assert!(vals[0].1.abs() < 1e-3);
    for k in 1..n {
        assert!(vals[k].0.abs() < 1e-3, "bin {} re = {}", k, vals[k].0);
        assert!(vals[k].1.abs() < 1e-3, "bin {} im = {}", k, vals[k].1);
    }
}

#[test]
fn fft_dc_component_scales_with_value_and_length() {
    let c = 2.5f32;
    let n = 4usize;
    let tone = vec![c.to_bits(); n];
    let spectrum = fft(&tone).unwrap();
    let vals = spectrum_values(&spectrum);
    assert!((vals[0].0 - 10.0).abs() < 1e-3);
    assert!(vals[0].1.abs() < 1e-3);
}

#[test]
fn fft_impulse_spreads_evenly() {
    // An impulse at index zero reaches every bin with weight one; a wrapper
    // that handed its argument back unchanged would break this.
    let tone = to_bits(&[1.0, 0.0, 0.0, 0.0]);
    let spectrum = fft(&tone).unwrap();
    for (re, im) in spectrum_values(&spectrum) {
        assert_eq!(re, 1.0);
        assert_eq!(im, 0.0);
    }
}

#[test]
fn fft_single_tone_recovers_frequency() {
    let freq = 4.0f32.to_bits();
    let rate = 16i32;
    let duration = 1.0f32.to_bits();
    let tone = generate_sin_wave(&freq, &rate, &duration);
    assert_eq!(tone.len(), 16);
    let spectrum = fft(&tone).unwrap();
    let mags: Vec<f32> = normalize_complex_vector(&spectrum)
        .iter()
        .map(|b| f32::from_bits(*b))
        .collect();
    // Energy sits in bin 4 and its mirror bin 12.
    assert!(mags[4] > 6.0, "bin 4 magnitude = {}", mags[4]);
    assert!(mags[12] > 6.0, "bin 12 magnitude = {}", mags[12]);
    for k in 0..16 {
        if k != 4 && k != 12 {
            assert!(mags[k] < 1.0, "bin {} magnitude = {}", k, mags[k]);
        }
    }
}

#[test]
fn fft_freq_labels_eight_bins_at_rate_sixteen() {
    let rate = 16i32;
    let axis: Vec<f32> = fft_freq(8, &rate).iter().map(|b| f32::from_bits(*b)).collect();
    assert_eq!(axis, vec![0.0, 2.0, 4.0, 6.0, 8.0, 10.0, 12.0, 14.0]);
}

#[test]
fn fft_freq_non_positive_count_gives_empty_axis() {
    let rate = 16i32;
    assert_eq!(fft_freq(0, &rate).len(), 0);
    assert_eq!(fft_freq(-3, &rate).len(), 0);
}

#[test]
fn magnitudes_are_euclidean_norms() {
    let spectrum = vec![
        Complex { re: 3.0f32.to_bits(), im: 4.0f32.to_bits() },
        Complex { re: 0.0f32.to_bits(), im: 0.0f32.to_bits() },
        Complex { re: (-5.0f32).to_bits(), im: 12.0f32.to_bits() },
    ];
    let mags: Vec<f32> = normalize_complex_vector(&spectrum)
        .iter()
        .map(|b| f32::from_bits(*b))
        .collect();
    assert_eq!(mags, vec![5.0, 0.0, 13.0]);
}

#[test]
fn magnitudes_are_non_negative_and_zero_only_at_zero() {
    let spectrum = vec![
        Complex { re: 0.0f32.to_bits(), im: 0.0f32.to_bits() },
        Complex { re: f32::MIN_POSITIVE.to_bits(), im: 0.0f32.to_bits() },
        Complex { re: (-0.25f32).to_bits(), im: (-0.25f32).to_bits() },
        Complex { re: 0.0f32.to_bits(), im: (-8.5f32).to_bits() },
    ];
    let mags: Vec<f32> = normalize_complex_vector(&spectrum)
        .iter()
        .map(|b| f32::from_bits(*b))
        .collect();
    for m in &mags {
        assert!(*m >= 0.0);
    }
    assert_eq!(mags[0], 0.0);
    for m in &mags[1..] {
        assert!(*m > 0.0);
    }
}

#[test]
fn fft_magnitudes_of_real_signal_are_non_negative() {
    let tone = to_bits(&[0.5, -1.0, 2.0, -3.0, 0.25, 1.5, -2.5, 0.75]);
    let spectrum = fft(&tone).unwrap();
    for b in normalize_complex_vector(&spectrum) {
        assert!(f32::from_bits(b) >= 0.0);
    }
}

#[test]
fn fft_is_linear_within_tolerance() {
    let x = [0.5f32, 1.0, -2.0, 3.0, 0.25, -1.5, 2.5, -0.75];
    let y = [1.0f32, 2.0, 3.0, 4.0, -1.0, -2.0, -3.0, -4.0];
    let a = 2.0f32;
    let b = -1.5f32;
    let mut combined = [0.0f32; 8];
    for k in 0..8 {
        combined[k] = a * x[k] + b * y[k];
    }
    let fx = spectrum_values(&fft(&to_bits(&x)).unwrap());
    let fy = spectrum_values(&fft(&to_bits(&y)).unwrap());
    let fc = spectrum_values(&fft(&to_bits(&combined)).unwrap());
    for k in 0..8 {
        let expect_re = a * fx[k].0 + b * fy[k].0;
        let expect_im = a * fx[k].1 + b * fy[k].1;
        assert!((fc[k].0 - expect_re).abs() < 1e-3 * (1.0 + expect_re.abs()));
        assert!((fc[k].1 - expect_im).abs() < 1e-3 * (1.0 + expect_im.abs()));
    }
}

#[test]
fn fft_is_deterministic_bit_for_bit() {
    let tone = to_bits(&[0.1, -0.2, 0.3, -0.4, 0.5, -0.6, 0.7, -0.8]);
    let first = fft(&tone).unwrap();
    let second = fft(&tone).unwrap();
    assert_eq!(first, second);
}

#[test]
fn sine_wave_matches_direct_evaluation() {
    let freq = 4.0f32;
    let rate = 16i32;
    let duration = 1.0f32;
    let wave = generate_sin_wave(&freq.to_bits(), &rate, &duration.to_bits());
    assert_eq!(wave.len(), 16);
    let loop_step = 1.0f32 / rate as f32;
    for (i, b) in wave.iter().enumerate() {
        let expected = (loop_step * i as f32 * freq * std::f32::consts::PI * 2.0).sin();
        assert_eq!(*b, expected.to_bits(), "sample {}", i);
    }
}

#[test]
fn sine_wave_starts_at_zero() {
    let wave = generate_sin_wave(&3.0f32.to_bits(), &8i32, &1.0f32.to_bits());
    assert_eq!(wave.len(), 8);
    assert_eq!(f32::from_bits(wave[0]), 0.0);
}

#[test]
fn sine_wave_degenerate_durations_give_empty_signal() {
    let freq = 2.0f32.to_bits();
    let rate = 16i32;
    assert_eq!(generate_sin_wave(&freq, &rate, &0.0f32.to_bits()).len(), 0);
    assert_eq!(generate_sin_wave(&freq, &rate, &(-1.0f32).to_bits()).len(), 0);
    // A duration shorter than one sample period truncates to the empty signal.
    assert_eq!(generate_sin_wave(&freq, &rate, &0.01f32.to_bits()).len(), 0);
}

#[test]
fn sine_wave_length_truncates_toward_zero() {
    let freq = 1.0f32.to_bits();
    let rate = 8i32;
    let wave = generate_sin_wave(&freq, &rate, &0.9f32.to_bits());
    assert_eq!(wave.len(), 7);
}
