//! Bit-level view of IEEE-754 single-precision values.
//!
//! Every quantity in this crate that hardware would treat as a 32-bit
//! float is carried as its raw bit pattern in a `u32`.  Equality of
//! bit patterns is exactly bit-for-bit equality of the floats.  The ordering
//! predicates below restate the IEEE-754 comparison rules (sign-magnitude
//! order, the two zeros equal, NaN unordered) as plain integer arithmetic,
//! so they can be both executed and reasoned about directly.

use vstd::prelude::*;
use vstd::arithmetic::power2::{pow2, lemma2_to64, lemma_pow2_adds, lemma_pow2_strictly_increases};

verus! {

/// Bit pattern of positive zero.
pub const POS_ZERO: u32 = 0;
/// Bit pattern of negative zero.
pub const NEG_ZERO: u32 = 0x8000_0000;
/// Bit pattern of 1.0.
pub const ONE_BITS: u32 = 0x3F80_0000;
/// Bit pattern of -1.0.
pub const NEG_ONE_BITS: u32 = 0xBF80_0000;

/// The sign bit is set.
pub open spec fn sign_bits(b: u32) -> bool {
    b >= 0x8000_0000
}

/// The magnitude: the bit pattern with the sign bit cleared.
pub open spec fn mag_bits(b: u32) -> u32 {
    if b >= 0x8000_0000 {
        (b - 0x8000_0000) as u32
    } else {
        b
    }
}

/// The biased exponent field.
pub open spec fn exp_bits(b: u32) -> u32 {
    (mag_bits(b) / 0x80_0000) as u32
}

/// The fraction field.
pub open spec fn frac_bits(b: u32) -> u32 {
    (mag_bits(b) % 0x80_0000) as u32
}

/// The pattern encodes a NaN.
pub open spec fn is_nan_bits(b: u32) -> bool {
    exp_bits(b) == 255 && frac_bits(b) != 0
}

/// The pattern encodes an infinity.
pub open spec fn is_inf_bits(b: u32) -> bool {
    exp_bits(b) == 255 && frac_bits(b) == 0
}

/// The pattern encodes one of the two zeros.
pub open spec fn is_zero_bits(b: u32) -> bool {
    mag_bits(b) == 0
}

/// The pattern encodes a zero or a NaN.
pub open spec fn is_zero_or_nan_bits(b: u32) -> bool {
    is_zero_bits(b) || is_nan_bits(b)
}

/// The pattern encodes a finite value (zero, subnormal or normal).
pub open spec fn is_finite_bits(b: u32) -> bool {
    exp_bits(b) != 255
}

/// IEEE-754 `<` on the encoded values: false whenever either side is NaN,
/// the two zeros compare equal, otherwise sign-magnitude order.
pub open spec fn lt_bits(a: u32, b: u32) -> bool {
    if is_nan_bits(a) || is_nan_bits(b) {
        false
    } else if is_zero_bits(a) && is_zero_bits(b) {
        false
    } else if sign_bits(a) && !sign_bits(b) {
        !(is_zero_bits(a) && is_zero_bits(b))
    } else if !sign_bits(a) && sign_bits(b) {
        false
    } else if !sign_bits(a) {
        mag_bits(a) < mag_bits(b)
    } else {
        mag_bits(a) > mag_bits(b)
    }
}

/// IEEE-754 `>` on the encoded values.
pub open spec fn gt_bits(a: u32, b: u32) -> bool {
    lt_bits(b, a)
}

/// IEEE-754 `==` on the encoded values: the two zeros are equal, NaN equals
/// nothing, every other value only equals its own pattern.
pub open spec fn eq_bits(a: u32, b: u32) -> bool {
    if is_nan_bits(a) || is_nan_bits(b) {
        false
    } else {
        a == b || (is_zero_bits(a) && is_zero_bits(b))
    }
}

/// IEEE-754 `<=` on the encoded values.
pub open spec fn le_bits(a: u32, b: u32) -> bool {
    lt_bits(a, b) || eq_bits(a, b)
}

/// IEEE-754 `>=` on the encoded values.
pub open spec fn ge_bits(a: u32, b: u32) -> bool {
    gt_bits(a, b) || eq_bits(a, b)
}

/// Executable form of `mag_bits`.
pub fn f32_mag(b: u32) -> (r: u32)
    ensures
        r == mag_bits(b),
{
    if b >= 0x8000_0000 {
        b - 0x8000_0000
    } else {
        b
    }
}

/// Executable form of `is_nan_bits`.
pub fn f32_is_nan(b: u32) -> (r: bool)
    ensures
        r == is_nan_bits(b),
{
    let m = f32_mag(b);
    m / 0x80_0000 == 255 && m % 0x80_0000 != 0
}

/// Executable form of `is_zero_bits`.
pub fn f32_is_zero(b: u32) -> (r: bool)
    ensures
        r == is_zero_bits(b),
{
    f32_mag(b) == 0
}

/// Executable form of `lt_bits`.
pub fn f32_lt(a: u32, b: u32) -> (r: bool)
    ensures
        r == lt_bits(a, b),
{
    if f32_is_nan(a) || f32_is_nan(b) {
        false
    } else if f32_is_zero(a) && f32_is_zero(b) {
        false
    } else if a >= 0x8000_0000 && b < 0x8000_0000 {
        true
    } else if a < 0x8000_0000 && b >= 0x8000_0000 {
        false
    } else if a < 0x8000_0000 {
        f32_mag(a) < f32_mag(b)
    } else {
        f32_mag(a) > f32_mag(b)
    }
}

/// Executable form of `gt_bits`.
pub fn f32_gt(a: u32, b: u32) -> (r: bool)
    ensures
        r == gt_bits(a, b),
{
    f32_lt(b, a)
}

/// Executable form of `eq_bits`.
pub fn f32_eq(a: u32, b: u32) -> (r: bool)
    ensures
        r == eq_bits(a, b),
{
    if f32_is_nan(a) || f32_is_nan(b) {
        false
    } else {
        a == b || (f32_is_zero(a) && f32_is_zero(b))
    }
}

/// Executable form of `le_bits`.
pub fn f32_le(a: u32, b: u32) -> (r: bool)
    ensures
        r == le_bits(a, b),
{
    f32_lt(a, b) || f32_eq(a, b)
}

/// Executable form of `ge_bits`.
pub fn f32_ge(a: u32, b: u32) -> (r: bool)
    ensures
        r == ge_bits(a, b),
{
    f32_gt(a, b) || f32_eq(a, b)
}

/// The value `max(v, 0.0)` follows for the encoding: every pattern that is
/// not strictly greater than positive zero (negatives, both zeros, NaN) is
/// floored to positive zero.
pub open spec fn relu_bits(v: u32) -> u32 {
    if gt_bits(v, POS_ZERO) {
        v
    } else {
        POS_ZERO
    }
}

/// Rectifier on encoded values: `max(v, 0.0)` with the IEEE rule that a NaN
/// operand yields the other operand.
pub fn f32_relu(v: u32) -> (r: u32)
    ensures
        r == relu_bits(v),
        is_zero_or_nan_bits(v) ==> r == POS_ZERO,
{
    if f32_gt(v, POS_ZERO) {
        v
    } else {
        POS_ZERO
    }
}

/// The pattern of the value `m * 2^(e - 150)` for a significand `m` below
/// 2^24 and an exponent field `e` reached after doubling `m` up to the
/// leading-bit position; zero stays zero.
pub open spec fn norm_bits(m: u32, e: u32) -> u32
    decreases 0x100_0000 - m,
{
    if m == 0 {
        0
    } else if m >= 0x100_0000 {
        0
    } else if m >= 0x80_0000 {
        (e * 0x80_0000 + m - 0x80_0000) as u32
    } else {
        norm_bits((m * 2) as u32, (e - 1) as u32)
    }
}

/// Assembles a positive float pattern from an un-normalized significand.
pub fn f32_norm(m: u32, e: u32) -> (r: u32)
    requires
        m < 0x100_0000,
        24 <= e <= 150,
    ensures
        r == norm_bits(m, e),
        r <= (e * 0x80_0000 + 0x7F_FFFF) as u32,
        r < 0x8000_0000,
        e == 126 ==> r < ONE_BITS,
        m <= 0x40_0000 && e == 128 ==> r <= ONE_BITS,
{
    if m == 0 {
        return 0;
    }
    let mut mm: u32 = m;
    let mut ee: u32 = e;
    let ghost mut k: nat = 0;
    proof {
        lemma2_to64();
    }
    while mm < 0x80_0000
        invariant
            1 <= m < 0x100_0000,
            24 <= e <= 150,
            1 <= mm < 0x100_0000,
            1 <= ee <= e,
            k == e - ee,
            k <= 23,
            mm as nat == m as nat * pow2(k),
            norm_bits(mm, ee) == norm_bits(m, e),
        decreases 0x100_0000 - mm,
    {
        proof {
            lemma2_to64();
            lemma_pow2_adds(k, 1);
            assert(pow2(k + 1) == pow2(k) * 2);
            assert(m as nat * pow2(k + 1) == mm as nat * 2) by (nonlinear_arith)
                requires
                    mm as nat == m as nat * pow2(k),
                    pow2(k + 1) == pow2(k) * 2,
            ;
            if k + 1 > 23 {
                if k + 1 > 24 {
                    lemma_pow2_strictly_increases(24, k + 1);
                }
                assert(pow2(k + 1) >= pow2(24));
                assert(m as nat * pow2(k + 1) >= pow2(24)) by (nonlinear_arith)
                    requires
                        m as nat >= 1,
                        pow2(k + 1) >= pow2(24),
                ;
                assert(mm * 2 < 0x100_0000);
                assert(pow2(24) == 0x100_0000);
                assert(false);
            }
        }
        mm = mm * 2;
        ee = ee - 1;
        proof {
            k = k + 1;
        }
    }
    proof {
        lemma2_to64();
        if m <= 0x40_0000 && e == 128 {
            if k == 0 {
                assert(mm == m * pow2(0));
                assert(false);
            } else if k == 1 {
                assert(mm as nat == m as nat * 2);
                assert(mm == 0x80_0000);
                assert(ee == 127);
            } else {
                assert(ee <= 126);
            }
        }
    }
    ee * 0x80_0000 + mm - 0x80_0000
}

/// The encoded order is asymmetric: two values are never each strictly
/// below the other.
pub proof fn lemma_lt_asym(a: u32, b: u32)
    requires
        lt_bits(a, b),
    ensures
        !lt_bits(b, a),
{
}

/// A strictly smaller value stays strictly smaller through a
/// tie-or-smaller step, NaN absent.
pub proof fn lemma_lt_le_trans(a: u32, b: u32, c: u32)
    requires
        lt_bits(a, b),
        le_bits(b, c),
    ensures
        lt_bits(a, c),
{
}

/// Two non-NaN values are strictly ordered one way or the other, or equal.
pub proof fn lemma_total(a: u32, b: u32)
    requires
        !is_nan_bits(a),
        !is_nan_bits(b),
    ensures
        lt_bits(a, b) || lt_bits(b, a) || eq_bits(a, b),
{
}

/// The probability that a pattern encodes: non-negative and at most one.
/// The negative zero counts, as the hardware comparison would accept it.
pub open spec fn prob_bits(b: u32) -> bool {
    mag_bits(b) <= ONE_BITS && (sign_bits(b) ==> mag_bits(b) == 0)
}

/// The pattern with the sign flipped: exact negation.
pub open spec fn neg_bits(b: u32) -> u32 {
    if b >= 0x8000_0000 {
        (b - 0x8000_0000) as u32
    } else {
        (b + 0x8000_0000) as u32
    }
}

/// Executable form of `neg_bits`.
pub fn f32_neg(b: u32) -> (r: u32)
    ensures
        r == neg_bits(b),
{
    if b >= 0x8000_0000 {
        b - 0x8000_0000
    } else {
        b + 0x8000_0000
    }
}

/// The value clamped into [lo, hi] by the hardware rule: below the floor
/// gives the floor, above the ceiling gives the ceiling, NaN passes
/// through unchanged.
pub open spec fn clamp_bits(v: u32, lo: u32, hi: u32) -> u32 {
    if lt_bits(v, lo) {
        lo
    } else if gt_bits(v, hi) {
        hi
    } else {
        v
    }
}

/// Executable form of `clamp_bits`.
pub fn f32_clamp(v: u32, lo: u32, hi: u32) -> (r: u32)
    ensures
        r == clamp_bits(v, lo, hi),
{
    if f32_lt(v, lo) {
        lo
    } else if f32_gt(v, hi) {
        hi
    } else {
        v
    }
}

/// The encoded value truncated toward zero into the unsigned range, as the
/// hardware float-to-integer cast behaves: NaN, negatives and values below
/// one give zero; values too large for the machine word saturate.
pub open spec fn trunc_usize_bits(b: u32) -> usize {
    let e = exp_bits(b);
    let sig = (0x80_0000 + frac_bits(b)) as u64;
    if sign_bits(b) || e < 127 || is_nan_bits(b) {
        0
    } else if e > 190 {
        usize::MAX
    } else if e >= 150 {
        if (sig << ((e - 150) as u64)) as u64 > usize::MAX as u64 {
            usize::MAX
        } else {
            ((sig << ((e - 150) as u64)) as u64) as usize
        }
    } else {
        if (sig >> ((150 - e) as u64)) as u64 > usize::MAX as u64 {
            usize::MAX
        } else {
            ((sig >> ((150 - e) as u64)) as u64) as usize
        }
    }
}

/// Executable form of `trunc_usize_bits`.
pub fn f32_trunc_usize(b: u32) -> (r: usize)
    ensures
        r == trunc_usize_bits(b),
{
    let m = f32_mag(b);
    let e = m / 0x80_0000;
    let f = m % 0x80_0000;
    let sig: u64 = 0x80_0000u64 + f as u64;
    if b >= 0x8000_0000 || e < 127 || (e == 255 && f != 0) {
        0
    } else if e > 190 {
        usize::MAX
    } else if e >= 150 {
        let v = sig << ((e - 150) as u64);
        if v > usize::MAX as u64 {
            usize::MAX
        } else {
            v as usize
        }
    } else {
        let v = sig >> ((150 - e) as u64);
        if v > usize::MAX as u64 {
            usize::MAX
        } else {
            v as usize
        }
    }
}

/// The pattern of a small whole number: exact for counts below 2^24.
pub open spec fn uint_bits(n: usize) -> u32 {
    norm_bits(n as u32, 150)
}

/// Converts a count below 2^24 to its exact float pattern.
pub fn f32_from_uint(n: usize) -> (r: u32)
    requires
        n < 0x100_0000,
    ensures
        r == uint_bits(n),
{
    f32_norm(n as u32, 150)
}

} // verus!
