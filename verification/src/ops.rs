//! Trusted boundary to the IEEE 754 binary32 arithmetic.
//!
//! Each operation takes and returns raw `u32` bit patterns. The result of an
//! IEEE operation in one rounding mode is a pure function of the operand bit
//! patterns, so each rounding operation gets an uninterpreted name
//! (`add_bits`, `mul_add_bits`, ...) that the wrapper's contract applies.
//! Beside the names stand only the short facts the kernels' proofs need,
//! each visible in the called crate's source: exact cancellation and exact
//! sign handling. The comparison never rounds, so it is not here: it is
//! ordinary verified code in [`crate::bits`].

use vstd::prelude::*;

use crate::bits::{flip_sign_bits, is_finite_bits, is_nan_bits};
use const_soft_float::soft_f32::SoftF32;
use rustc_apfloat::Float;
use rustc_apfloat::ieee::Single;

verus! {

/// Name for the IEEE binary32 sum (round to nearest even) of two patterns.
pub uninterp spec fn add_bits(a: u32, b: u32) -> u32;

/// Name for the IEEE binary32 difference of two patterns.
pub uninterp spec fn sub_bits(a: u32, b: u32) -> u32;

/// Name for the IEEE binary32 product of two patterns.
pub uninterp spec fn mul_bits(a: u32, b: u32) -> u32;

/// Name for the IEEE binary32 fused multiply-add `a * b + c`: one rounding
/// of the exact product plus addend.
pub uninterp spec fn mul_add_bits(a: u32, b: u32, c: u32) -> u32;

/// Name for the IEEE binary32 quotient of two patterns.
pub uninterp spec fn div_bits(a: u32, b: u32) -> u32;

/// Name for the IEEE binary32 square root of a pattern.
pub uninterp spec fn sqrt_bits(a: u32) -> u32;

/// Relies on `const_soft_float::soft_f32::SoftF32::add`: IEEE binary32
/// addition, round to nearest even, a pure function of the operand bits.
/// The zero fact holds because its source returns the bitwise `&` of two
/// zero operands.
#[verifier::external_body]
pub(crate) fn f32_add(a: u32, b: u32) -> (r: u32)
    ensures
        r == add_bits(a, b),
        a == 0 && b == 0 ==> r == 0,
{
    SoftF32::from_bits(a).add(SoftF32::from_bits(b)).to_bits()
}

/// Relies on `const_soft_float::soft_f32::SoftF32::sub` (addition of the
/// negated operand): IEEE binary32 subtraction, round to nearest even.
/// Facts visible in its source: exact cancellation of a finite value with
/// itself returns `+0`; for non-NaN operands that differ, swapping them
/// negates the (non-NaN) result exactly.
#[verifier::external_body]
pub(crate) fn f32_sub(a: u32, b: u32) -> (r: u32)
    ensures
        r == sub_bits(a, b),
        a == b && is_finite_bits(a) ==> r == 0,
        !is_nan_bits(a) && !is_nan_bits(b) && a != b ==> sub_bits(b, a) == flip_sign_bits(r)
            && !is_nan_bits(r),
{
    SoftF32::from_bits(a).sub(SoftF32::from_bits(b)).to_bits()
}

/// Relies on `const_soft_float::soft_f32::SoftF32::mul`: IEEE binary32
/// multiplication, round to nearest even. Facts visible in its source: the
/// product of two `+0` operands is `+0`; for non-NaN operands the product is
/// commutative bit for bit, and negating both operands leaves it unchanged
/// (the sign is the exclusive-or of the operand signs, and an invalid
/// `0 * inf` yields the canonical quiet NaN either way).
#[verifier::external_body]
pub(crate) fn f32_mul(a: u32, b: u32) -> (r: u32)
    ensures
        r == mul_bits(a, b),
        a == 0 && b == 0 ==> r == 0,
        !is_nan_bits(a) && !is_nan_bits(b) ==> r == mul_bits(b, a) && r == mul_bits(
            flip_sign_bits(a),
            flip_sign_bits(b),
        ),
{
    SoftF32::from_bits(a).mul(SoftF32::from_bits(b)).to_bits()
}

/// Relies on `rustc_apfloat::ieee::Single::mul_add`: IEEE binary32 fused
/// multiply-add, round to nearest even. Facts visible in its source: with
/// all three operands `+0` the result is `+0`; for non-NaN factors the exact
/// product is commutative and unchanged by negating both factors (sign by
/// exclusive-or; an invalid `0 * inf` yields the canonical NaN either way),
/// so the rounded result is identical bit for bit.
#[verifier::external_body]
pub(crate) fn f32_mul_add(a: u32, b: u32, c: u32) -> (r: u32)
    ensures
        r == mul_add_bits(a, b, c),
        a == 0 && b == 0 && c == 0 ==> r == 0,
        !is_nan_bits(a) && !is_nan_bits(b) ==> r == mul_add_bits(b, a, c) && r == mul_add_bits(
            flip_sign_bits(a),
            flip_sign_bits(b),
            c,
        ),
{
    let x = Single::from_bits(a as u128);
    let y = Single::from_bits(b as u128);
    let z = Single::from_bits(c as u128);
    (x.mul_add(y, z).value.to_bits()) as u32
}

/// Relies on `const_soft_float::soft_f32::SoftF32::div`: IEEE binary32
/// division, round to nearest even.
#[verifier::external_body]
pub(crate) fn f32_div(a: u32, b: u32) -> (r: u32)
    ensures
        r == div_bits(a, b),
{
    SoftF32::from_bits(a).div(SoftF32::from_bits(b)).to_bits()
}

/// Relies on `const_soft_float::soft_f32::SoftF32::sqrt` (the musl `sqrtf`
/// routine): correctly rounded IEEE binary32 square root. Facts visible in
/// its source: `sqrt(+0) == +0`; a NaN argument yields a NaN; a non-NaN
/// argument with a clear sign bit yields a non-NaN, non-negative root.
#[verifier::external_body]
pub(crate) fn f32_sqrt(a: u32) -> (r: u32)
    ensures
        r == sqrt_bits(a),
        a == 0 ==> r == 0,
        is_nan_bits(a) ==> is_nan_bits(r),
        !is_nan_bits(a) && a < 0x8000_0000 ==> !is_nan_bits(r) && r < 0x8000_0000,
{
    SoftF32::from_bits(a).sqrt().to_bits()
}

} // verus!
