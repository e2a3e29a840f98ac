//! Draws from the pseudo-random generator.
//!
//! The generator is rand's `StdRng`, threaded mutably through every
//! operation that consumes randomness, so a fixed seed fixes every run.
//! Only integer draws cross the trust boundary; the float-valued draws the
//! system needs are rebuilt bit-exactly from one integer draw each,
//! following the generator's documented conversions: the multiply-based
//! unit-interval method (top 24 bits over 2^24), the uniform spread of a
//! [1, 2) pattern onto [-1, 1), and the 64-bit scaling of a Bernoulli
//! probability.  Rebuilding them here keeps the generator's draw order
//! byte for byte while letting every decision made on the drawn values
//! be verified.

use vstd::prelude::*;
use rand::Rng;
use rand::rngs::StdRng;
use rand::seq::IndexedRandom;
use crate::float_bits::{
    norm_bits, f32_norm, prob_bits, mag_bits, sign_bits, exp_bits, frac_bits, is_zero_bits,
    ONE_BITS,
};

verus! {

#[verifier::external_type_specification]
#[verifier::external_body]
pub struct ExStdRng(StdRng);

/// Relies on rand's `Rng::random::<u32>` on `StdRng`: one 32-bit draw from
/// the stream; nothing is promised of the value.
#[verifier::external_body]
pub(crate) fn draw_u32(rng: &mut StdRng) -> (r: u32) {
    rng.random()
}

/// Relies on rand's `Rng::random::<u64>` on `StdRng`: one 64-bit draw from
/// the stream; nothing is promised of the value.
#[verifier::external_body]
pub(crate) fn draw_u64(rng: &mut StdRng) -> (r: u64) {
    rng.random()
}

/// Sum of the weights in a sequence of (index, weight) pairs.
pub open spec fn weight_sum(s: Seq<(usize, usize)>) -> int
    decreases s.len(),
{
    if s.len() == 0 {
        0
    } else {
        weight_sum(s.drop_last()) + s.last().1
    }
}

/// Some pair in the sequence has a positive weight.
pub open spec fn has_positive_weight(s: Seq<(usize, usize)>) -> bool {
    exists|j: int| 0 <= j < s.len() && (#[trigger] s[j]).1 > 0
}

/// The value is the index component of some pair with a positive weight.
pub open spec fn is_weighted_pick(s: Seq<(usize, usize)>, r: usize) -> bool {
    exists|j: int| 0 <= j < s.len() && r == (#[trigger] s[j]).0 && s[j].1 > 0
}

/// Relies on rand's `IndexedRandom::choose_weighted` (backed by
/// `WeightedIndex` over a cumulative-weight table): given a non-empty
/// slice whose weights sum to a positive value without overflowing, it
/// returns one element, chosen with probability proportional to its
/// weight; an element with weight zero is never returned.
#[verifier::external_body]
pub(crate) fn choose_weighted_pair(rng: &mut StdRng, items: &Vec<(usize, usize)>) -> (r: usize)
    requires
        items@.len() > 0,
        weight_sum(items@) <= usize::MAX as int,
        has_positive_weight(items@),
    ensures
        is_weighted_pick(items@, r),
{
    items.choose_weighted(rng, |p| p.1).unwrap().0
}

/// A probability pattern below one, scaled to 64 fractional bits: the
/// floor of its value times 2^64, read off the significand and exponent.
pub open spec fn p_scale_bits(chance: u32) -> u64 {
    let e = exp_bits(chance);
    let sig = (0x80_0000 + frac_bits(chance)) as u64;
    if mag_bits(chance) == 0 || e == 0 {
        0u64
    } else if e >= 86 {
        (sig << ((e - 86) as u64)) as u64
    } else if 86 - e >= 64 {
        0u64
    } else {
        (sig >> ((86 - e) as u64)) as u64
    }
}

/// Scales a probability pattern below one to 64 fractional bits.
pub(crate) fn p_scale(chance: u32) -> (r: u64)
    requires
        prob_bits(chance),
        chance != ONE_BITS,
    ensures
        r == p_scale_bits(chance),
        is_zero_bits(chance) ==> r == 0,
{
    let m = crate::float_bits::f32_mag(chance);
    let e = m / 0x80_0000;
    let f = m % 0x80_0000;
    let sig: u64 = 0x80_0000u64 + f as u64;
    if m == 0 || e == 0 {
        0
    } else if e >= 86 {
        sig << ((e - 86) as u64)
    } else if 86 - e >= 64 {
        0
    } else {
        sig >> ((86 - e) as u64)
    }
}

/// One Bernoulli draw with the given probability pattern: the probability
/// is scaled to 64 bits and compared against one 64-bit draw, exactly as
/// the generator's `random_bool` proceeds; probability one short-circuits
/// without drawing, probability zero never succeeds.
pub(crate) fn bernoulli(rng: &mut StdRng, chance: u32) -> (r: bool)
    requires
        prob_bits(chance),
    ensures
        is_zero_bits(chance) ==> r == false,
        chance == ONE_BITS ==> r == true,
{
    if chance == ONE_BITS {
        true
    } else {
        let p_int = p_scale(chance);
        let v = draw_u64(rng);
        v < p_int
    }
}

/// One fair coin draw: one 64-bit draw against even odds, exactly the
/// generator's even-odds `random_bool`.
pub(crate) fn coin(rng: &mut StdRng) -> bool {
    let v = draw_u64(rng);
    v < 0x8000_0000_0000_0000
}

/// The unit-interval pattern built from one 32-bit draw: the top 24 bits
/// over 2^24.
pub open spec fn unit_bits_of(u: u32) -> u32 {
    norm_bits(u / 256, 126)
}

/// One standard unit-interval draw, in [0, 1).
pub(crate) fn draw_unit(rng: &mut StdRng) -> (r: u32)
    ensures
        exists|u: u32| r == unit_bits_of(u),
        !sign_bits(r),
        mag_bits(r) < ONE_BITS,
{
    let u = draw_u32(rng);
    let r = f32_norm(u / 256, 126);
    proof {
        assert(r == unit_bits_of(u));
    }
    r
}

/// The [-1, 1) pattern built from one 32-bit draw: the top 23 bits give a
/// value in [1, 2), spread onto [-1, 1) by the uniform-range conversion
/// for the bounds minus one and one.
pub open spec fn pm1_bits_of(u: u32) -> u32 {
    let m = u / 512;
    if m >= 0x40_0000 {
        norm_bits((m - 0x40_0000) as u32, 128)
    } else {
        (norm_bits((0x40_0000 - m) as u32, 128) + 0x8000_0000) as u32
    }
}

/// The [1, 2) pattern built from the top 23 bits of one draw, minus one:
/// the uniform unit value that range draws scale.
pub open spec fn unit_1_2_less_1_bits(u: u32) -> u32 {
    norm_bits(u / 512, 127)
}

/// One uniform draw over a full turn: a unit draw scaled by two pi,
/// exactly as the generator's uniform range draw proceeds.
pub(crate) fn draw_angle(rng: &mut StdRng) -> (r: u32)
    ensures
        exists|u: u32| r == crate::arith::mul_bits(unit_1_2_less_1_bits(u), crate::eye::TAU_BITS),
{
    let u = draw_u32(rng);
    let v01 = f32_norm(u / 512, 127);
    let r = crate::arith::f32_mul(v01, crate::eye::TAU_BITS);
    proof {
        assert(v01 == unit_1_2_less_1_bits(u));
    }
    r
}

/// One uniform draw over [-1, 1], exactly as the generator's inclusive
/// range draw proceeds; the magnitude never exceeds one.
pub(crate) fn draw_pm1(rng: &mut StdRng) -> (r: u32)
    ensures
        exists|u: u32| r == pm1_bits_of(u),
        mag_bits(r) <= ONE_BITS,
{
    let u = draw_u32(rng);
    let m = u / 512;
    let r = if m >= 0x40_0000 {
        f32_norm(m - 0x40_0000, 128)
    } else {
        let n = f32_norm(0x40_0000 - m, 128);
        n + 0x8000_0000
    };
    proof {
        assert(r == pm1_bits_of(u));
    }
    r
}

} // verus!
