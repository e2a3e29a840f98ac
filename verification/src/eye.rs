//! The sensory transducer.
//!
//! An eye turns the agent's surroundings into a fixed-size histogram of
//! perceived energy.  The two transcendental measures — the distance to a
//! food item and its absolute bearing — are handed in as readings by the
//! surrounding runtime, which alone can take square roots and arc
//! tangents; every decision made on them (range gate, cone gate, cell
//! assignment, energy accumulation) is taken and verified here, on the
//! exact float patterns the hardware would produce.

use vstd::prelude::*;
use crate::arith::{
    add_bits, sub_bits, mul_bits, div_bits, f32_add, f32_sub, f32_mul, f32_div,
};
use crate::float_bits::{
    ge_bits, gt_bits, lt_bits, is_finite_bits, is_nan_bits, neg_bits, f32_neg, f32_ge, f32_gt,
    f32_lt, trunc_usize_bits, f32_trunc_usize, uint_bits, f32_from_uint, POS_ZERO, ONE_BITS,
};

verus! {

/// Bit pattern of the default sensing distance: a quarter of the world.
pub const FOV_RANGE_BITS: u32 = 0x3E80_0000;

/// Bit pattern of the default cone width: pi plus a quarter pi radians.
pub const FOV_ANGLE_BITS: u32 = 0x407B_53D2;

/// Bit pattern of pi.
pub const PI_BITS: u32 = 0x4049_0FDB;

/// Bit pattern of minus pi.
pub const NEG_PI_BITS: u32 = 0xC049_0FDB;

/// Bit pattern of two pi.
pub const TAU_BITS: u32 = 0x40C9_0FDB;

/// Bit pattern of two.
pub const TWO_BITS: u32 = 0x4000_0000;

/// The default photoreceptor count.
pub const CELLS: usize = 9;

/// What an eye learns of one food item: the distance from the agent, and
/// the bearing of the food measured from the world's reference direction,
/// both as float patterns.
#[derive(Clone, Copy, Debug)]
pub struct FoodReading {
    pub distance: u32,
    pub angle: u32,
}

/// Three configuration scalars fixed at construction; the eye holds no
/// per-tick state.
#[derive(Clone, Copy, Debug)]
pub struct Eye {
    pub fov_range: u32,
    pub fov_angle: u32,
    pub cells: usize,
}

/// Half the cone width: one rounded division by two.
pub open spec fn half_fov(e: Eye) -> u32 {
    div_bits(e.fov_angle, TWO_BITS)
}

/// An angle brought back into the plus-or-minus half turn by one
/// full-turn step, which covers every angle this crate composes.
pub open spec fn wrap_pi_bits(a: u32) -> u32 {
    if lt_bits(a, NEG_PI_BITS) {
        add_bits(a, TAU_BITS)
    } else if gt_bits(a, PI_BITS) {
        sub_bits(a, TAU_BITS)
    } else {
        a
    }
}

/// Executable form of `wrap_pi_bits`.
pub fn f32_wrap_pi(a: u32) -> (r: u32)
    ensures
        r == wrap_pi_bits(a),
{
    if f32_lt(a, NEG_PI_BITS) {
        f32_add(a, TAU_BITS)
    } else if f32_gt(a, PI_BITS) {
        f32_sub(a, TAU_BITS)
    } else {
        a
    }
}

/// The reading's bearing relative to the agent's heading, wrapped.
pub open spec fn rel_angle(rot: u32, raw: u32) -> u32 {
    wrap_pi_bits(sub_bits(raw, rot))
}

/// The energy a seen food contributes: its closeness over the range.
pub open spec fn energy_bits(e: Eye, rd: FoodReading) -> u32 {
    div_bits(sub_bits(e.fov_range, rd.distance), e.fov_range)
}

/// The relative bearing lies inside the sensing cone.
pub open spec fn in_cone(e: Eye, rot: u32, rd: FoodReading) -> bool {
    let a = rel_angle(rot, rd.angle);
    !(lt_bits(a, neg_bits(half_fov(e))) || gt_bits(a, half_fov(e)))
}

/// Whether one reading is seen at all and, if so, which cell it lands in
/// and with what energy: too distant or outside the cone is unseen;
/// otherwise the relative bearing is shifted to the cone's start, divided
/// by the cone width, scaled by the cell count, truncated, and clamped to
/// the last cell.
pub open spec fn vision_hit(e: Eye, rot: u32, rd: FoodReading) -> Option<(usize, u32)>
    recommends
        e.cells >= 1,
{
    if ge_bits(rd.distance, e.fov_range) {
        None
    } else if !in_cone(e, rot, rd) {
        None
    } else {
        let shifted = add_bits(rel_angle(rot, rd.angle), half_fov(e));
        let scaled = mul_bits(div_bits(shifted, e.fov_angle), uint_bits(e.cells));
        let idx0 = trunc_usize_bits(scaled);
        let idx = if idx0 < e.cells {
            idx0
        } else {
            (e.cells - 1) as usize
        };
        Some((idx, energy_bits(e, rd)))
    }
}

/// The histogram after the first `k` readings: each seen reading adds its
/// energy onto the cell it lands in, additively.
pub open spec fn vision_acc(e: Eye, rot: u32, rds: Seq<FoodReading>, k: int) -> Seq<u32>
    decreases k,
{
    if k <= 0 {
        Seq::new(e.cells as nat, |t: int| POS_ZERO)
    } else {
        let prev = vision_acc(e, rot, rds, k - 1);
        match vision_hit(e, rot, rds[k - 1]) {
            None => prev,
            Some((idx, en)) => prev.update(idx as int, add_bits(prev[idx as int], en)),
        }
    }
}

/// The histogram always holds one entry per photoreceptor.
pub proof fn lemma_vision_len(e: Eye, rot: u32, rds: Seq<FoodReading>, k: int)
    requires
        e.cells >= 1,
    ensures
        vision_acc(e, rot, rds, k).len() == e.cells,
    decreases k,
{
    if k > 0 {
        lemma_vision_len(e, rot, rds, k - 1);
        let prev = vision_acc(e, rot, rds, k - 1);
        match vision_hit(e, rot, rds[k - 1]) {
            None => {
                assert(vision_acc(e, rot, rds, k) == prev);
            },
            Some((idx, en)) => {
                assert(vision_acc(e, rot, rds, k) == prev.update(
                    idx as int,
                    add_bits(prev[idx as int], en),
                ));
                assert(prev.update(idx as int, add_bits(prev[idx as int], en)).len()
                    == prev.len());
            },
        }
    } else {
        assert(vision_acc(e, rot, rds, k) == Seq::new(e.cells as nat, |t: int| POS_ZERO));
        assert(Seq::new(e.cells as nat, |t: int| POS_ZERO).len() == e.cells as nat);
    }
}

/// A food at or beyond the sensing distance contributes nothing: the
/// histogram after it equals the histogram before it.
pub proof fn lemma_unseen_far_food(e: Eye, rot: u32, rds: Seq<FoodReading>, k: int)
    requires
        0 <= k < rds.len(),
        ge_bits(rds[k].distance, e.fov_range),
    ensures
        vision_acc(e, rot, rds, k + 1) == vision_acc(e, rot, rds, k),
{
}

/// A food outside the angular cone contributes nothing, whatever its
/// distance.
pub proof fn lemma_unseen_side_food(e: Eye, rot: u32, rds: Seq<FoodReading>, k: int)
    requires
        0 <= k < rds.len(),
        !in_cone(e, rot, rds[k]),
    ensures
        vision_acc(e, rot, rds, k + 1) == vision_acc(e, rot, rds, k),
{
}

/// A food exactly at the agent's position is always inside the sensing
/// distance (the range is positive), so if its bearing falls in the cone
/// it is seen, and its energy lands on the cell the bearing maps to.
pub proof fn lemma_food_at_agent(e: Eye, rot: u32, rds: Seq<FoodReading>, k: int)
    requires
        0 <= k < rds.len(),
        gt_bits(e.fov_range, POS_ZERO),
        rds[k].distance == POS_ZERO,
        in_cone(e, rot, rds[k]),
    ensures
        vision_hit(e, rot, rds[k]).is_some(),
        vision_acc(e, rot, rds, k + 1) == vision_acc(e, rot, rds, k).update(
            vision_hit(e, rot, rds[k]).unwrap().0 as int,
            add_bits(
                vision_acc(e, rot, rds, k)[vision_hit(e, rot, rds[k]).unwrap().0 as int],
                energy_bits(e, rds[k]),
            ),
        ),
{
    assert(!ge_bits(rds[k].distance, e.fov_range));
}

impl Eye {
    /// Wraps the three scalars; range and cone must be positive and the
    /// cell count usable.
    pub fn new(fov_range: u32, fov_angle: u32, cells: usize) -> (r: Self)
        requires
            gt_bits(fov_range, POS_ZERO),
            gt_bits(fov_angle, POS_ZERO),
            1 <= cells < 0x100_0000,
        ensures
            r.fov_range == fov_range,
            r.fov_angle == fov_angle,
            r.cells == cells,
    {
        Eye { fov_range, fov_angle, cells }
    }

    /// The photoreceptor count.
    pub fn cells(&self) -> (r: usize)
        ensures
            r == self.cells,
    {
        self.cells
    }

    /// The perceived-energy histogram over the given readings, one per
    /// food item, in order.  When the range is finite, a food at distance
    /// zero that is seen at all contributes exactly one unit of energy.
    pub fn process_vision(&self, rotation: u32, readings: &Vec<FoodReading>) -> (r: Vec<u32>)
        requires
            1 <= self.cells < 0x100_0000,
            gt_bits(self.fov_range, POS_ZERO),
        ensures
            r@ == vision_acc(*self, rotation, readings@, readings@.len() as int),
            is_finite_bits(self.fov_range) ==> forall|t: int|
                0 <= t < readings@.len() && (#[trigger] readings@[t]).distance == POS_ZERO
                    ==> energy_bits(*self, readings@[t]) == ONE_BITS,
    {
        let n = readings.len();
        let mut out: Vec<u32> = Vec::new();
        let mut t: usize = 0;
        while t < self.cells
            invariant
                t <= self.cells,
                out@.len() == t,
                forall|w: int| 0 <= w < t ==> out@[w] == POS_ZERO,
            decreases self.cells - t,
        {
            out.push(POS_ZERO);
            t = t + 1;
        }
        proof {
            assert(out@ =~= vision_acc(*self, rotation, readings@, 0));
        }
        let mut k: usize = 0;
        while k < n
            invariant
                n == readings@.len(),
                1 <= self.cells < 0x100_0000,
                gt_bits(self.fov_range, POS_ZERO),
                k <= n,
                out@.len() == self.cells,
                out@ == vision_acc(*self, rotation, readings@, k as int),
                is_finite_bits(self.fov_range) ==> forall|t: int|
                    0 <= t < k && (#[trigger] readings@[t]).distance == POS_ZERO
                        ==> energy_bits(*self, readings@[t]) == ONE_BITS,
            decreases n - k,
        {
            let rd = readings[k];
            if !f32_ge(rd.distance, self.fov_range) {
                let half = f32_div(self.fov_angle, TWO_BITS);
                let a0 = f32_sub(rd.angle, rotation);
                let a = f32_wrap_pi(a0);
                proof {
                    assert(a == rel_angle(rotation, rd.angle));
                }
                let energy_num = f32_sub(self.fov_range, rd.distance);
                let energy = f32_div(energy_num, self.fov_range);
                proof {
                    if rd.distance == POS_ZERO {
                        assert(!is_nan_bits(self.fov_range));
                        assert(energy_num == self.fov_range);
                        if is_finite_bits(self.fov_range) {
                            assert(energy == ONE_BITS);
                        }
                    }
                }
                if !(f32_lt(a, f32_neg(half)) || f32_gt(a, half)) {
                    let shifted = f32_add(a, half);
                    let scaled = f32_mul(f32_div(shifted, self.fov_angle), f32_from_uint(
                        self.cells,
                    ));
                    let idx0 = f32_trunc_usize(scaled);
                    let idx = if idx0 < self.cells {
                        idx0
                    } else {
                        self.cells - 1
                    };
                    let prev = out[idx];
                    let bumped = f32_add(prev, energy);
                    out.set(idx, bumped);
                    proof {
                        assert(vision_hit(*self, rotation, readings@[k as int]) == Some(
                            (idx, energy_bits(*self, readings@[k as int])),
                        ));
                        assert(out@ =~= vision_acc(*self, rotation, readings@, k + 1));
                    }
                }
            }
            k = k + 1;
        }
        out
    }
}

/// The default eye: quarter-world range, wide cone, nine cells.
impl Default for Eye {
    fn default() -> (r: Self)
        ensures
            r.fov_range == FOV_RANGE_BITS,
            r.fov_angle == FOV_ANGLE_BITS,
            r.cells == CELLS,
    {
        Eye::new(FOV_RANGE_BITS, FOV_ANGLE_BITS, CELLS)
    }
}

} // verus!
