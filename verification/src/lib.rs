//! Radix-2 fast Fourier transform over single-precision samples.
//!
//! Samples and spectrum entries are carried as the IEEE-754 bit patterns of
//! single-precision values (`u32` for a real, a pair for a complex number),
//! so that every index computation, the bit-reversal permutation and the
//! butterfly schedule are verified, while the floating-point arithmetic
//! itself is delegated to the `num` crate and to the platform's
//! single-precision operations behind trusted wrappers.
//!
//! The transform uses the `e^{+2*pi*i*jk/n}` kernel (the roots of unity are
//! built with a positive sine component), which is the inverse-style sign
//! convention; magnitudes are unaffected, and bin `k` of a real signal mirrors
//! bin `n - k` of the standard forward convention.

pub mod floats;
pub mod complex;
pub mod bits;
pub mod transform;
pub mod signal;

pub use complex::Complex;
pub use transform::{fft, FftError};
pub use signal::{fft_freq, generate_sin_wave, normalize_complex_vector};
