//! Bit-level view of IEEE 754 binary32 values.
//!
//! A binary32 number is carried as its `u32` bit pattern: one sign bit,
//! an 8-bit exponent field and a 23-bit fraction field. The spec functions
//! here decode a pattern without any floating-point arithmetic, so they are
//! plain integer functions that the solver can reason about directly.

use vstd::arithmetic::power2::pow2;
use vstd::prelude::*;

verus! {

/// Bit pattern of the binary32 machine epsilon, `2^-23` (exponent field
/// `104`, fraction `0`). A squared norm strictly below this value is treated
/// as zero by the normalization kernel.
pub const EPSILON_BITS: u32 = 0x3400_0000;

/// The exponent field: bits 23 to 30 of the pattern.
pub open spec fn exp_field(b: u32) -> u32 {
    (b / 0x80_0000) % 0x100
}

/// The fraction field: the low 23 bits of the pattern.
pub open spec fn frac_field(b: u32) -> u32 {
    b % 0x80_0000
}

/// True when the sign bit (bit 31) is set.
pub open spec fn sign_bit_set(b: u32) -> bool {
    b >= 0x8000_0000
}

/// A NaN has an all-ones exponent field and a nonzero fraction.
pub open spec fn is_nan_bits(b: u32) -> bool {
    exp_field(b) == 0xFF && frac_field(b) != 0
}

/// A finite number has an exponent field below all-ones (NaN and the two
/// infinities are excluded).
pub open spec fn is_finite_bits(b: u32) -> bool {
    exp_field(b) < 0xFF
}

/// The pattern with the sign bit inverted: the IEEE negation of the value.
pub open spec fn flip_sign_bits(b: u32) -> u32 {
    b ^ 0x8000_0000
}

/// The pattern with the sign bit cleared: the IEEE absolute value.
pub open spec fn abs_bits_spec(b: u32) -> u32 {
    b & 0x7FFF_FFFF
}

/// Magnitude of a non-NaN pattern as an exact integer, scaled by `2^149`:
/// a subnormal is `frac`, a normal number is `(2^23 + frac) * 2^(exp - 1)`.
/// The scaling keeps every finite magnitude integral, and it is monotone in
/// the ordering of the underlying values.
pub open spec fn mag_scaled(b: u32) -> int {
    if exp_field(b) == 0 {
        frac_field(b) as int
    } else {
        (0x80_0000 + frac_field(b)) * pow2((exp_field(b) - 1) as nat)
    }
}

/// Signed value of a non-NaN pattern as an exact integer scaled by `2^149`.
/// Both zeros map to `0`, so the derived order is exactly the IEEE order.
pub open spec fn val_scaled(b: u32) -> int {
    if sign_bit_set(b) {
        -mag_scaled(b)
    } else {
        mag_scaled(b)
    }
}

/// IEEE `<` on two patterns: false whenever either side is NaN, otherwise
/// the order of the signed scaled values.
pub open spec fn lt_bits(a: u32, b: u32) -> bool {
    &&& !is_nan_bits(a)
    &&& !is_nan_bits(b)
    &&& val_scaled(a) < val_scaled(b)
}

/// Clears the sign bit: the IEEE absolute value, which is exact and never
/// signals, so it is ordinary verified code rather than a trusted call.
pub fn abs_bits(b: u32) -> (r: u32)
    ensures
        r == abs_bits_spec(b),
        r < 0x8000_0000,
        is_nan_bits(r) == is_nan_bits(b),
        b == 0 ==> r == 0,
{
    proof {
        lemma_abs_keeps_fields(b);
    }
    b & 0x7FFF_FFFF
}

/// Clearing the sign bit leaves the exponent and fraction fields unchanged.
pub proof fn lemma_abs_keeps_fields(b: u32)
    ensures
        exp_field(abs_bits_spec(b)) == exp_field(b),
        frac_field(abs_bits_spec(b)) == frac_field(b),
        abs_bits_spec(b) < 0x8000_0000,
        b == 0 ==> abs_bits_spec(b) == 0,
{
    assert(((b & 0x7FFF_FFFFu32) / 0x80_0000u32) % 0x100u32 == (b / 0x80_0000u32) % 0x100u32 && (b
        & 0x7FFF_FFFFu32) % 0x80_0000u32 == b % 0x80_0000u32 && (b & 0x7FFF_FFFFu32)
        < 0x8000_0000u32 && (b == 0u32 ==> (b & 0x7FFF_FFFFu32) == 0u32)) by (bit_vector);
}

/// The scaled magnitude of a sign-cleared pattern is non-negative, and
/// zero exactly for the `+0` pattern.
pub proof fn lemma_mag_zero_iff(x: u32)
    requires
        x < 0x8000_0000,
    ensures
        0 <= mag_scaled(x),
        mag_scaled(x) == 0 <==> x == 0,
{
    vstd::arithmetic::div_mod::lemma_fundamental_div_mod(x as int, 0x80_0000);
    vstd::arithmetic::div_mod::lemma_small_mod((x as int / 0x80_0000) as nat, 0x100);
    let e = exp_field(x);
    let f = frac_field(x);
    assert(e == x as int / 0x80_0000 && f == x as int % 0x80_0000);
    if e != 0 {
        vstd::arithmetic::power2::lemma_pow2_pos((e - 1) as nat);
        let p = pow2((e - 1) as nat);
        assert((0x80_0000 + f) * p > 0) by (nonlinear_arith)
            requires
                p > 0,
                f >= 0,
        ;
    }
}

/// The scaled magnitude is strictly monotone in the sign-cleared pattern:
/// a larger pattern decodes to a strictly larger magnitude.
pub proof fn lemma_mag_strictly_monotone(x: u32, y: u32)
    requires
        x < y,
        y < 0x8000_0000,
    ensures
        mag_scaled(x) < mag_scaled(y),
{
    vstd::arithmetic::div_mod::lemma_fundamental_div_mod(x as int, 0x80_0000);
    vstd::arithmetic::div_mod::lemma_fundamental_div_mod(y as int, 0x80_0000);
    vstd::arithmetic::div_mod::lemma_small_mod((x as int / 0x80_0000) as nat, 0x100);
    vstd::arithmetic::div_mod::lemma_small_mod((y as int / 0x80_0000) as nat, 0x100);
    vstd::arithmetic::div_mod::lemma_div_is_ordered(x as int, y as int, 0x80_0000);
    let ex = exp_field(x) as int;
    let fx = frac_field(x) as int;
    let ey = exp_field(y) as int;
    let fy = frac_field(y) as int;
    assert(ex == x as int / 0x80_0000 && fx == x as int % 0x80_0000);
    assert(ey == y as int / 0x80_0000 && fy == y as int % 0x80_0000);
    if ex == ey {
        assert(fx < fy);
        if ex != 0 {
            vstd::arithmetic::power2::lemma_pow2_pos((ex - 1) as nat);
            let p = pow2((ex - 1) as nat);
            assert((0x80_0000 + fx) * p < (0x80_0000 + fy) * p) by (nonlinear_arith)
                requires
                    p > 0,
                    fx < fy,
            ;
        }
    } else {
        assert(1 <= ey);
        let py = pow2((ey - 1) as nat);
        vstd::arithmetic::power2::lemma_pow2_pos((ey - 1) as nat);
        if ex == 0 {
            assert(fx < 0x80_0000);
            assert(0x80_0000 <= (0x80_0000 + fy) * py) by (nonlinear_arith)
                requires
                    py >= 1,
                    fy >= 0,
            ;
        } else {
            let px = pow2((ex - 1) as nat);
            vstd::arithmetic::power2::lemma_pow2_pos((ex - 1) as nat);
            vstd::arithmetic::power2::lemma_pow2_unfold(ex as nat);
            assert(pow2(ex as nat) == px * 2);
            if ex < ey - 1 {
                vstd::arithmetic::power2::lemma_pow2_strictly_increases(ex as nat, (ey - 1) as nat);
            }
            assert(pow2(ex as nat) <= py);
            assert((0x80_0000 + fx) * px < (0x80_0000 + fy) * py) by (nonlinear_arith)
                requires
                    px > 0,
                    py > 0,
                    0 <= fx < 0x80_0000,
                    0 <= fy,
                    px * 2 <= py,
            ;
        }
    }
}

/// IEEE `<` on two binary32 bit patterns. The comparison is exact — it
/// never rounds — so it is ordinary verified code: a NaN on either side
/// compares false, the two zeros are equal, and otherwise sign and
/// magnitude decide.
pub fn f32_lt(a: u32, b: u32) -> (r: bool)
    ensures
        r == lt_bits(a, b),
{
    proof {
        lemma_abs_keeps_fields(a);
        lemma_abs_keeps_fields(b);
    }
    let abs_a: u32 = a & 0x7FFF_FFFF;
    let abs_b: u32 = b & 0x7FFF_FFFF;
    proof {
        vstd::arithmetic::div_mod::lemma_fundamental_div_mod(abs_a as int, 0x80_0000);
        vstd::arithmetic::div_mod::lemma_fundamental_div_mod(abs_b as int, 0x80_0000);
        vstd::arithmetic::div_mod::lemma_small_mod((abs_a as int / 0x80_0000) as nat, 0x100);
        vstd::arithmetic::div_mod::lemma_small_mod((abs_b as int / 0x80_0000) as nat, 0x100);
    }
    let nan_a: bool = abs_a / 0x80_0000 == 0xFF && abs_a % 0x80_0000 != 0;
    let nan_b: bool = abs_b / 0x80_0000 == 0xFF && abs_b % 0x80_0000 != 0;
    proof {
        assert(nan_a == is_nan_bits(a));
        assert(nan_b == is_nan_bits(b));
    }
    if nan_a || nan_b {
        return false;
    }
    proof {
        lemma_mag_zero_iff(abs_a);
        lemma_mag_zero_iff(abs_b);
        assert(mag_scaled(a) == mag_scaled(abs_a));
        assert(mag_scaled(b) == mag_scaled(abs_b));
    }
    if abs_a == 0 && abs_b == 0 {
        return false;
    }
    let neg_a: bool = a >= 0x8000_0000;
    let neg_b: bool = b >= 0x8000_0000;
    if neg_a != neg_b {
        return neg_a;
    }
    if abs_a == abs_b {
        return false;
    }
    proof {
        if abs_a < abs_b {
            lemma_mag_strictly_monotone(abs_a, abs_b);
        } else {
            lemma_mag_strictly_monotone(abs_b, abs_a);
        }
    }
    if neg_a {
        abs_b < abs_a
    } else {
        abs_a < abs_b
    }
}

/// The machine-epsilon pattern is a positive, non-NaN value, so any
/// squared norm of zero compares strictly below it.
pub proof fn lemma_zero_lt_epsilon()
    ensures
        lt_bits(0, EPSILON_BITS),
{
    assert(exp_field(0u32) == 0);
    assert(frac_field(0u32) == 0);
    assert(exp_field(EPSILON_BITS) == 104);
    assert(frac_field(EPSILON_BITS) == 0);
    vstd::arithmetic::power2::lemma_pow2_pos(103);
    assert(mag_scaled(EPSILON_BITS) == 0x80_0000 * pow2(103));
    assert(val_scaled(0u32) == 0);
    assert(val_scaled(EPSILON_BITS) > 0);
}

} // verus!
