//! Arithmetic on IEEE-754 single-precision bit patterns.
//!
//! The four rounded operations are performed by `rustc_apfloat`, a pure
//! software implementation of IEEE-754 binary32 arithmetic (round to
//! nearest, ties to even) that works directly on bit patterns.  Each result
//! is a function of the operand patterns alone, so it is given a name by an
//! uninterpreted spec function; contracts elsewhere in the crate speak of
//! those names.  The few conditional clauses below state facts that the
//! IEEE-754 rules give plainly and that callers' proofs need.

use vstd::prelude::*;
use crate::float_bits::{is_zero_or_nan_bits, is_zero_bits, is_nan_bits, is_finite_bits, POS_ZERO, ONE_BITS};
use rustc_apfloat::Float;
use rustc_apfloat::ieee::Single;

verus! {

/// The IEEE-754 single-precision sum of two bit patterns.
pub uninterp spec fn add_bits(a: u32, b: u32) -> u32;

/// The IEEE-754 single-precision difference of two bit patterns.
pub uninterp spec fn sub_bits(a: u32, b: u32) -> u32;

/// The IEEE-754 single-precision product of two bit patterns.
pub uninterp spec fn mul_bits(a: u32, b: u32) -> u32;

/// The IEEE-754 single-precision quotient of two bit patterns.
pub uninterp spec fn div_bits(a: u32, b: u32) -> u32;

/// Relies on rustc_apfloat's binary32 addition, rounding to nearest even:
/// a deterministic function of the operand patterns.  A sum of zeros and
/// NaNs is a zero or a NaN.
#[verifier::external_body]
pub(crate) fn f32_add(a: u32, b: u32) -> (r: u32)
    ensures
        r == add_bits(a, b),
        is_zero_or_nan_bits(a) && is_zero_or_nan_bits(b) ==> is_zero_or_nan_bits(r),
{
    let x = Single::from_bits(a as u128);
    let y = Single::from_bits(b as u128);
    (x + y).value.to_bits() as u32
}

/// Relies on rustc_apfloat's binary32 subtraction, rounding to nearest
/// even.  Subtracting positive zero from a non-NaN value returns that value
/// unchanged.
#[verifier::external_body]
pub(crate) fn f32_sub(a: u32, b: u32) -> (r: u32)
    ensures
        r == sub_bits(a, b),
        b == POS_ZERO && !is_nan_bits(a) ==> r == a,
{
    let x = Single::from_bits(a as u128);
    let y = Single::from_bits(b as u128);
    (x - y).value.to_bits() as u32
}

/// Relies on rustc_apfloat's binary32 multiplication, rounding to nearest
/// even.  A product with a zero operand is a zero (other operand finite) or
/// a NaN (other operand infinite or NaN).
#[verifier::external_body]
pub(crate) fn f32_mul(a: u32, b: u32) -> (r: u32)
    ensures
        r == mul_bits(a, b),
        is_zero_bits(a) || is_zero_bits(b) ==> is_zero_or_nan_bits(r),
{
    let x = Single::from_bits(a as u128);
    let y = Single::from_bits(b as u128);
    (x * y).value.to_bits() as u32
}

/// Relies on rustc_apfloat's binary32 division, rounding to nearest even.
/// A finite non-zero value divided by itself is exactly 1.0.
#[verifier::external_body]
pub(crate) fn f32_div(a: u32, b: u32) -> (r: u32)
    ensures
        r == div_bits(a, b),
        a == b && is_finite_bits(a) && !is_zero_bits(a) && !is_nan_bits(a) ==> r == ONE_BITS,
{
    let x = Single::from_bits(a as u128);
    let y = Single::from_bits(b as u128);
    (x / y).value.to_bits() as u32
}

} // verus!
