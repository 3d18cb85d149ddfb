//! Complex values as pairs of single-precision bit patterns, and trusted
//! wrappers around the complex arithmetic of the `num` crate.

use vstd::prelude::*;
use crate::floats::{add_bits, sub_bits, mul_bits};

verus! {

/// A complex number, held as the IEEE-754 bit patterns of its
/// single-precision real and imaginary parts.
#[derive(Clone, Copy, Debug, PartialEq, Eq, Structural)]
pub struct Complex {
    pub re: u32,
    pub im: u32,
}

/// The complex zero: both parts are the bit pattern of 0.0.
pub open spec fn c_zero() -> Complex {
    Complex { re: 0, im: 0 }
}

/// Componentwise single-precision sum, as `num`'s complex `+` computes it.
pub open spec fn c_add(a: Complex, b: Complex) -> Complex {
    Complex { re: add_bits(a.re, b.re), im: add_bits(a.im, b.im) }
}

/// Componentwise single-precision difference, as `num`'s complex `-`
/// computes it.
pub open spec fn c_sub(a: Complex, b: Complex) -> Complex {
    Complex { re: sub_bits(a.re, b.re), im: sub_bits(a.im, b.im) }
}

/// The single-precision complex product, in the exact operation order of
/// `num`'s complex `*`: `(a.re*b.re - a.im*b.im, a.re*b.im + a.im*b.re)`.
pub open spec fn c_mul(a: Complex, b: Complex) -> Complex {
    Complex {
        re: sub_bits(mul_bits(a.re, b.re), mul_bits(a.im, b.im)),
        im: add_bits(mul_bits(a.re, b.im), mul_bits(a.im, b.re)),
    }
}

/// What `num`'s `Complex::norm` returns for the value with these part bits:
/// the hypotenuse of the real and imaginary parts, as a bit pattern.
pub uninterp spec fn norm_bits(re: u32, im: u32) -> u32;

/// Relies on `num`'s `Add for Complex<T>`: the sum is built componentwise as
/// `new(self.re + other.re, self.im + other.im)`.
#[verifier::external_body]
pub(crate) fn complex_add(a: Complex, b: Complex) -> (r: Complex)
    ensures
        r.re == add_bits(a.re, b.re),
        r.im == add_bits(a.im, b.im),
        r == c_add(a, b),
{
    let x = num::complex::Complex32::new(
        num::traits::FromBytes::from_le_bytes(&a.re.to_le_bytes()),
        num::traits::FromBytes::from_le_bytes(&a.im.to_le_bytes()),
    );
    let y = num::complex::Complex32::new(
        num::traits::FromBytes::from_le_bytes(&b.re.to_le_bytes()),
        num::traits::FromBytes::from_le_bytes(&b.im.to_le_bytes()),
    );
    let s = x + y;
    Complex { re: s.re.to_bits(), im: s.im.to_bits() }
}

/// Relies on `num`'s `Sub for Complex<T>`: the difference is built
/// componentwise as `new(self.re - other.re, self.im - other.im)`.
#[verifier::external_body]
pub(crate) fn complex_sub(a: Complex, b: Complex) -> (r: Complex)
    ensures
        r.re == sub_bits(a.re, b.re),
        r.im == sub_bits(a.im, b.im),
        r == c_sub(a, b),
{
    let x = num::complex::Complex32::new(
        num::traits::FromBytes::from_le_bytes(&a.re.to_le_bytes()),
        num::traits::FromBytes::from_le_bytes(&a.im.to_le_bytes()),
    );
    let y = num::complex::Complex32::new(
        num::traits::FromBytes::from_le_bytes(&b.re.to_le_bytes()),
        num::traits::FromBytes::from_le_bytes(&b.im.to_le_bytes()),
    );
    let d = x - y;
    Complex { re: d.re.to_bits(), im: d.im.to_bits() }
}

/// Relies on `num`'s `Mul for Complex<T>`: the product is built as
/// `re = self.re*other.re - self.im*other.im` and
/// `im = self.re*other.im + self.im*other.re`.
#[verifier::external_body]
pub(crate) fn complex_mul(a: Complex, b: Complex) -> (r: Complex)
    ensures
        r == c_mul(a, b),
{
    let x = num::complex::Complex32::new(
        num::traits::FromBytes::from_le_bytes(&a.re.to_le_bytes()),
        num::traits::FromBytes::from_le_bytes(&a.im.to_le_bytes()),
    );
    let y = num::complex::Complex32::new(
        num::traits::FromBytes::from_le_bytes(&b.re.to_le_bytes()),
        num::traits::FromBytes::from_le_bytes(&b.im.to_le_bytes()),
    );
    let p = x * y;
    Complex { re: p.re.to_bits(), im: p.im.to_bits() }
}

/// Relies on `num`'s `Complex::norm`, which returns `self.re.hypot(self.im)`.
#[verifier::external_body]
pub(crate) fn complex_norm(c: &Complex) -> (r: u32)
    ensures
        r == norm_bits(c.re, c.im),
{
    let x = num::complex::Complex32::new(
        num::traits::FromBytes::from_le_bytes(&c.re.to_le_bytes()),
        num::traits::FromBytes::from_le_bytes(&c.im.to_le_bytes()),
    );
    x.norm().to_bits()
}

} // verus!
