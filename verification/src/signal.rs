//! Frequency-axis labeling, magnitude extraction and sine-wave synthesis.
//!
//! All three are elementwise maps over single-precision values carried as
//! bit patterns; each contract states the exact composition of named
//! operations applied at every index.

use vstd::prelude::*;
use crate::complex::{Complex, norm_bits, complex_norm};
use crate::floats::{
    F32_BITS_ONE, F32_BITS_TWO, F32_BITS_PI, mul_bits, div_bits, sin_bits, f32_bits_of_i32,
    i32_of_f32_bits, pi_bits, f32_mul, f32_div, f32_sin, f32_from_i32, f32_bits_to_i32,
};

verus! {

/// Entry `k` of the frequency axis for `n` bins at the given sample rate:
/// `k * (sample_rate / n)` in single precision.
pub open spec fn freq_entry_bits(k: int, n: i32, sample_rate: i32) -> u32 {
    mul_bits(f32_bits_of_i32(k as i32), div_bits(f32_bits_of_i32(sample_rate), f32_bits_of_i32(n)))
}

/// The frequency in hertz of each of the `n` transform bins at the given
/// sample rate: entry `k` is `k * sample_rate / n`. A non-positive `n`
/// yields an empty axis.
pub fn fft_freq(n: i32, sample_rate: &i32) -> (r: Vec<u32>)
    ensures
        r@.len() == (if n >= 1 {
            n as int
        } else {
            0
        }),
        forall|k: int| 0 <= k < r@.len() ==> r@[k] == freq_entry_bits(k, n, *sample_rate),
{
    let temp_value = f32_div(f32_from_i32(*sample_rate), f32_from_i32(n));
    let mut frequencies: Vec<u32> = Vec::new();
    if n <= 0 {
        return frequencies;
    }
    let mut i: i32 = 0;
    while i < n
        invariant
            0 <= i <= n,
            temp_value == div_bits(f32_bits_of_i32(*sample_rate), f32_bits_of_i32(n)),
            frequencies@.len() == i as int,
            forall|k: int| 0 <= k < i as int ==> frequencies@[k] == freq_entry_bits(
                k,
                n,
                *sample_rate,
            ),
        decreases n - i,
    {
        frequencies.push(f32_mul(f32_from_i32(i), temp_value));
        i = i + 1;
    }
    frequencies
}

/// The magnitude (Euclidean norm) of every spectrum entry, in order: entry
/// `k` is `norm_bits` of the parts of `mas[k]`.
pub fn normalize_complex_vector(mas: &Vec<Complex>) -> (r: Vec<u32>)
    ensures
        r@.len() == mas@.len(),
        forall|k: int| 0 <= k < mas@.len() ==> r@[k] == norm_bits(mas@[k].re, mas@[k].im),
{
    let mut result: Vec<u32> = Vec::new();
    let mut i: usize = 0;
    while i < mas.len()
        invariant
            i <= mas@.len(),
            result@.len() == i,
            forall|k: int| 0 <= k < i ==> result@[k] == norm_bits(mas@[k].re, mas@[k].im),
        decreases mas@.len() - i,
    {
        result.push(complex_norm(&mas[i]));
        i = i + 1;
    }
    result
}

/// The number of samples of a synthesized wave: `sample_rate * duration`
/// truncated to an integer, and zero when that is not positive.
pub open spec fn sine_sample_count(sample_rate: i32, duration: u32) -> int {
    let c = i32_of_f32_bits(mul_bits(f32_bits_of_i32(sample_rate), duration));
    if c >= 1 {
        c as int
    } else {
        0
    }
}

/// Sample `k` of the synthesized wave:
/// `sin(1/sample_rate * k * freq * pi * 2.0)` with the factors applied in
/// exactly that order in single precision.
pub open spec fn sine_sample_bits(k: int, freq: u32, sample_rate: i32) -> u32 {
    sin_bits(
        mul_bits(
            mul_bits(
                mul_bits(
                    mul_bits(div_bits(F32_BITS_ONE, f32_bits_of_i32(sample_rate)), f32_bits_of_i32(k as i32)),
                    freq,
                ),
                F32_BITS_PI,
            ),
            F32_BITS_TWO,
        ),
    )
}

/// A pure tone: `floor(sample_rate * duration)` samples of
/// `sin(2 * pi * freq * k / sample_rate)`. The frequency and the duration
/// are single-precision bit patterns; the result's length may not be a power
/// of two, and a caller who wants to transform it must choose the duration
/// accordingly.
pub fn generate_sin_wave(freq: &u32, sample_rate: &i32, duration: &u32) -> (r: Vec<u32>)
    ensures
        r@.len() == sine_sample_count(*sample_rate, *duration),
        forall|k: int| 0 <= k < r@.len() ==> r@[k] == sine_sample_bits(k, *freq, *sample_rate),
{
    let sr_f = f32_from_i32(*sample_rate);
    let n_i = f32_bits_to_i32(f32_mul(sr_f, *duration));
    let n: i32 = if n_i < 1 {
        0
    } else {
        n_i
    };
    let loop_step = f32_div(F32_BITS_ONE, sr_f);
    let pi = pi_bits();
    let mut wave: Vec<u32> = Vec::new();
    let mut i: i32 = 0;
    while i < n
        invariant
            0 <= i <= n,
            n as int == sine_sample_count(*sample_rate, *duration),
            sr_f == f32_bits_of_i32(*sample_rate),
            loop_step == div_bits(F32_BITS_ONE, f32_bits_of_i32(*sample_rate)),
            pi == F32_BITS_PI,
            wave@.len() == i as int,
            forall|k: int| 0 <= k < i as int ==> wave@[k] == sine_sample_bits(
                k,
                *freq,
                *sample_rate,
            ),
        decreases n - i,
    {
        let angle = f32_mul(f32_mul(f32_mul(f32_mul(loop_step, f32_from_i32(i)), *freq), pi), F32_BITS_TWO);
        wave.push(f32_sin(angle));
        i = i + 1;
    }
    wave
}

} // verus!
