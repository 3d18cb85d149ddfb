//! Single-precision scalar operations, carried as IEEE-754 bit patterns.
//!
//! A `u32` in this crate stands for the single-precision value with that bit
//! pattern. The verified code never computes with the values themselves: each
//! operation is a trusted wrapper around the platform operation, and its
//! result is pinned by an uninterpreted name, so that callers' contracts can
//! state exactly which operations were applied to which operands.

use vstd::prelude::*;

verus! {

/// Bit pattern of the single-precision value 0.0.
pub const F32_BITS_ZERO: u32 = 0x0000_0000;

/// Bit pattern of the single-precision value 1.0.
pub const F32_BITS_ONE: u32 = 0x3F80_0000;

/// Bit pattern of the single-precision value 2.0.
pub const F32_BITS_TWO: u32 = 0x4000_0000;

/// Bit pattern of the single-precision value nearest to pi.
pub const F32_BITS_PI: u32 = 0x4049_0FDB;

/// The sum of the single-precision values with bit patterns `a` and `b`,
/// as a bit pattern.
pub uninterp spec fn add_bits(a: u32, b: u32) -> u32;

/// The difference of the single-precision values with bit patterns `a` and
/// `b`, as a bit pattern.
pub uninterp spec fn sub_bits(a: u32, b: u32) -> u32;

/// The product of the single-precision values with bit patterns `a` and `b`,
/// as a bit pattern.
pub uninterp spec fn mul_bits(a: u32, b: u32) -> u32;

/// The quotient of the single-precision values with bit patterns `a` and `b`,
/// as a bit pattern.
pub uninterp spec fn div_bits(a: u32, b: u32) -> u32;

/// The cosine of the single-precision value with bit pattern `a`, as a bit
/// pattern.
pub uninterp spec fn cos_bits(a: u32) -> u32;

/// The sine of the single-precision value with bit pattern `a`, as a bit
/// pattern.
pub uninterp spec fn sin_bits(a: u32) -> u32;

/// The single-precision value nearest to the integer `x`, as a bit pattern.
pub uninterp spec fn f32_bits_of_usize(x: usize) -> u32;

/// The single-precision value nearest to the integer `x`, as a bit pattern.
pub uninterp spec fn f32_bits_of_i32(x: i32) -> u32;

/// The single-precision value with bit pattern `b`, truncated toward zero and
/// saturated to the range of `i32` (zero when it is a NaN).
pub uninterp spec fn i32_of_f32_bits(b: u32) -> i32;

/// Relies on `num::traits::FloatConst::PI` for the single-precision constant
/// nearest to pi, whose bit pattern is 0x4049_0FDB.
#[verifier::external_body]
pub(crate) fn pi_bits() -> (r: u32)
    ensures
        r == F32_BITS_PI,
{
    let x = num::complex::Complex32::new(
        num::traits::FloatConst::PI(),
        num::traits::FloatConst::PI(),
    );
    x.re.to_bits()
}

/// Relies on core's single-precision `*` operator (IEEE-754 multiplication);
/// the operands travel through the slots of a `num` complex value so that the
/// bit patterns can be unpacked.
#[verifier::external_body]
pub(crate) fn f32_mul(a: u32, b: u32) -> (r: u32)
    ensures
        r == mul_bits(a, b),
{
    let x = num::complex::Complex32::new(
        num::traits::FromBytes::from_le_bytes(&a.to_le_bytes()),
        num::traits::FromBytes::from_le_bytes(&b.to_le_bytes()),
    );
    (x.re * x.im).to_bits()
}

/// Relies on core's single-precision `/` operator (IEEE-754 division).
#[verifier::external_body]
pub(crate) fn f32_div(a: u32, b: u32) -> (r: u32)
    ensures
        r == div_bits(a, b),
{
    let x = num::complex::Complex32::new(
        num::traits::FromBytes::from_le_bytes(&a.to_le_bytes()),
        num::traits::FromBytes::from_le_bytes(&b.to_le_bytes()),
    );
    (x.re / x.im).to_bits()
}

/// Relies on the standard library's single-precision `cos` method: the result
/// depends on the argument's bits alone.
#[verifier::external_body]
pub(crate) fn f32_cos(a: u32) -> (r: u32)
    ensures
        r == cos_bits(a),
{
    let x = num::complex::Complex32::new(
        num::traits::FromBytes::from_le_bytes(&a.to_le_bytes()),
        num::traits::FromBytes::from_le_bytes(&a.to_le_bytes()),
    );
    x.re.cos().to_bits()
}

/// Relies on the standard library's single-precision `sin` method: the result
/// depends on the argument's bits alone.
#[verifier::external_body]
pub(crate) fn f32_sin(a: u32) -> (r: u32)
    ensures
        r == sin_bits(a),
{
    let x = num::complex::Complex32::new(
        num::traits::FromBytes::from_le_bytes(&a.to_le_bytes()),
        num::traits::FromBytes::from_le_bytes(&a.to_le_bytes()),
    );
    x.re.sin().to_bits()
}

/// Relies on core's `usize` to single-precision `as` cast (correctly rounded),
/// through `num::traits::AsPrimitive`.
#[verifier::external_body]
pub(crate) fn f32_from_usize(x: usize) -> (r: u32)
    ensures
        r == f32_bits_of_usize(x),
{
    let v = num::complex::Complex32::new(
        num::traits::AsPrimitive::as_(x),
        num::traits::AsPrimitive::as_(x),
    );
    v.re.to_bits()
}

/// Relies on core's `i32` to single-precision `as` cast (correctly rounded),
/// through `num::traits::AsPrimitive`.
#[verifier::external_body]
pub(crate) fn f32_from_i32(x: i32) -> (r: u32)
    ensures
        r == f32_bits_of_i32(x),
{
    let v = num::complex::Complex32::new(
        num::traits::AsPrimitive::as_(x),
        num::traits::AsPrimitive::as_(x),
    );
    v.re.to_bits()
}

/// Relies on core's single-precision to `i32` `as` cast (truncation toward
/// zero, saturating at the range ends, zero for a NaN), through
/// `num::traits::AsPrimitive`.
#[verifier::external_body]
pub(crate) fn f32_bits_to_i32(b: u32) -> (r: i32)
    ensures
        r == i32_of_f32_bits(b),
{
    let x = num::complex::Complex32::new(
        num::traits::FromBytes::from_le_bytes(&b.to_le_bytes()),
        num::traits::FromBytes::from_le_bytes(&b.to_le_bytes()),
    );
    let n: i32 = num::traits::AsPrimitive::as_(x.re);
    n
}

} // verus!
