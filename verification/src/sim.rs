//! The simulation: per-tick physics and epoch-based evolution.
//!
//! One tick runs sense-and-think, then movement, then collisions, then
//! counts the generation's age and, past the generation length, replaces
//! the population through the genetic engine — always in that fixed
//! order.  The surrounding runtime drives the phases in that order and
//! supplies what only it can compute: per-food distances and bearings
//! for the eyes, and each heading's cosine and sine for the movement
//! step.  Every decision taken on those values is made and verified
//! here.

use vstd::prelude::*;
use rand::rngs::StdRng;
use crate::arith::{add_bits, mul_bits, sub_bits, f32_add, f32_mul, f32_sub};
use crate::eye::{vision_acc, wrap_pi_bits, f32_wrap_pi, lemma_vision_len, FoodReading};
use crate::float_bits::{
    clamp_bits, f32_clamp, lt_bits, gt_bits, le_bits, f32_le, POS_ZERO, ONE_BITS,
};
use crate::ga::{
    child_of, descends_from, GaussianMutation, GeneticAlgorithm, Individual, MutationMethod,
    RankSelection, UniformCrossover,
};
use crate::network::{
    genome_len, lemma_matches_chain, lemma_net_out_len, net_genome, net_out_bits,
};
use crate::world::{
    agent_wf, brain_topology, default_eye, lemma_brain_genome_len, random_position, unit_position,
    Agent, AgentIndividual, Input, Position, World, SPEED_INIT_BITS,
};

verus! {

/// Bit pattern of the slowest allowed speed.
pub const SPEED_MIN_BITS: u32 = 0x38D1_B717;

/// Bit pattern of the fastest allowed speed.
pub const SPEED_MAX_BITS: u32 = 0x3A03_126F;

/// Bit pattern of the largest speed change one thought may command.
pub const SPEED_ACCEL_BITS: u32 = 0x3E4C_CCCD;

/// Bit pattern of the largest backward speed change.
pub const NEG_SPEED_ACCEL_BITS: u32 = 0xBE4C_CCCD;

/// Bit pattern of the largest turn one thought may command: a quarter
/// turn.
pub const ROTATION_ACCEL_BITS: u32 = 0x3FC9_0FDB;

/// Bit pattern of the largest turn the other way.
pub const NEG_ROTATION_ACCEL_BITS: u32 = 0xBFC9_0FDB;

/// Ticks per generation.
pub const GENERATION_LENGTH: usize = 2500;

/// Bit pattern of the squared consumption radius: the square of one
/// hundredth, so the collision test compares squared distances and needs
/// no square root.
pub const FOOD_RADIUS_SQ_BITS: u32 = 0x38D1_B717;

/// Bit pattern of the mutation chance installed in the engine.
pub const MUT_CHANCE_BITS: u32 = 0x3C23_D70A;

/// Bit pattern of the mutation coefficient installed in the engine.
pub const MUT_COEFF_BITS: u32 = 0x3E99_999A;

/// The cosine and sine of one agent's heading, computed by the runtime.
#[derive(Clone, Copy, Debug)]
pub struct HeadingTrig {
    pub cos: u32,
    pub sin: u32,
}

/// The world, the installed genetic engine, and the generation's age.
pub struct Simulation {
    world: World,
    ga: GeneticAlgorithm<RankSelection, UniformCrossover, GaussianMutation>,
    age: usize,
}

/// The motor response of one agent to its food readings: its eye's
/// histogram pushed through its brain.
pub open spec fn agent_response(a: Agent, rds: Seq<FoodReading>) -> Seq<u32> {
    net_out_bits(a.brain.nn.layers@, vision_acc(a.eye, a.rotation, rds, rds.len() as int))
}

/// The speed after thinking: the response's first entry clamped to the
/// acceleration band, added onto the old speed, clamped to the speed
/// band.
pub open spec fn thought_speed(a: Agent, rds: Seq<FoodReading>) -> u32 {
    clamp_bits(
        add_bits(
            a.speed,
            clamp_bits(agent_response(a, rds)[0], NEG_SPEED_ACCEL_BITS, SPEED_ACCEL_BITS),
        ),
        SPEED_MIN_BITS,
        SPEED_MAX_BITS,
    )
}

/// The heading after thinking: the response's second entry clamped to
/// the turn band, added onto the old heading, wrapped into the
/// plus-or-minus half turn.
pub open spec fn thought_rotation(a: Agent, rds: Seq<FoodReading>) -> u32 {
    wrap_pi_bits(
        add_bits(
            a.rotation,
            clamp_bits(agent_response(a, rds)[1], NEG_ROTATION_ACCEL_BITS, ROTATION_ACCEL_BITS),
        ),
    )
}

/// A coordinate brought back onto the unit torus by one step, which
/// covers every reachable position.
pub open spec fn wrap_unit_bits(v: u32) -> u32 {
    if lt_bits(v, POS_ZERO) {
        add_bits(v, ONE_BITS)
    } else if gt_bits(v, ONE_BITS) {
        sub_bits(v, ONE_BITS)
    } else {
        v
    }
}

/// Executable form of `wrap_unit_bits`.
pub fn f32_wrap_unit(v: u32) -> (r: u32)
    ensures
        r == wrap_unit_bits(v),
{
    if crate::float_bits::f32_lt(v, POS_ZERO) {
        f32_add(v, ONE_BITS)
    } else if crate::float_bits::f32_gt(v, ONE_BITS) {
        f32_sub(v, ONE_BITS)
    } else {
        v
    }
}

/// One coordinate after a tick's movement: the heading component times
/// the speed, added on, wrapped onto the torus.
pub open spec fn moved_coord(c: u32, trig: u32, speed: u32) -> u32 {
    wrap_unit_bits(add_bits(c, mul_bits(trig, speed)))
}

/// The collision test: the squared distance between the two positions,
/// summed component-wise in the fixed order, is at most the squared
/// consumption radius.
pub open spec fn food_hit(a: Position, f: Position) -> bool {
    le_bits(
        add_bits(
            mul_bits(sub_bits(f.x, a.x), sub_bits(f.x, a.x)),
            mul_bits(sub_bits(f.y, a.y), sub_bits(f.y, a.y)),
        ),
        FOOD_RADIUS_SQ_BITS,
    )
}

/// The satiation counter after one more meal.  It saturates just below
/// the exact-conversion bound, far beyond anything a generation can
/// reach, so the fitness conversion at the boundary stays exact.
pub open spec fn fed(sat: usize) -> usize {
    if sat < 0xFF_FFFF {
        (sat + 1) as usize
    } else {
        sat
    }
}

/// One agent's pass over the foods from index `j` on: every food within
/// the consumption radius at the moment its turn comes feeds the agent
/// once and takes its queued relocation draw, in place, so the rest of
/// this pass and every later pass see the relocated food.  Returns the
/// final satiation and the final foods.
pub open spec fn collide_foods(
    a: Position,
    sat: usize,
    foods: Seq<Input>,
    draws: Seq<Position>,
    j: int,
) -> (usize, Seq<Input>)
    decreases foods.len() - j,
{
    if j < 0 || j >= foods.len() {
        (sat, foods)
    } else if food_hit(a, foods[j].position) {
        collide_foods(
            a,
            fed(sat),
            foods.update(j, Input { position: draws[j] }),
            draws,
            j + 1,
        )
    } else {
        collide_foods(a, sat, foods, draws, j + 1)
    }
}

/// The agent with only its satiation replaced.
pub open spec fn with_satiation(a: Agent, sat: usize) -> Agent {
    Agent {
        position: a.position,
        rotation: a.rotation,
        speed: a.speed,
        eye: a.eye,
        brain: a.brain,
        satiation: sat,
    }
}

/// The whole collision sweep from agent `i` on, agent-major and
/// food-minor: each agent's pass runs over the foods the earlier agents
/// left behind, with one queue of relocation draws per agent.
pub open spec fn collide_world(
    agents: Seq<Agent>,
    foods: Seq<Input>,
    draws: Seq<Seq<Position>>,
    i: int,
) -> (Seq<Agent>, Seq<Input>)
    decreases agents.len() - i,
{
    if i < 0 || i >= agents.len() {
        (agents, foods)
    } else {
        let pass = collide_foods(agents[i].position, agents[i].satiation, foods, draws[i], 0);
        collide_world(
            agents.update(i, with_satiation(agents[i], pass.0)),
            pass.1,
            draws,
            i + 1,
        )
    }
}

/// Some queue of relocation draws explains the pass outcome.
pub open spec fn pass_explained(
    a: Position,
    sat: usize,
    foods: Seq<Input>,
    j: int,
    r: usize,
    foods2: Seq<Input>,
) -> bool {
    exists|draws: Seq<Position>|
        r == (#[trigger] collide_foods(a, sat, foods, draws, j)).0 && foods2 == collide_foods(
            a,
            sat,
            foods,
            draws,
            j,
        ).1
}

/// Some queues of relocation draws explain the whole sweep outcome.
pub open spec fn collisions_explained(
    agents: Seq<Agent>,
    foods: Seq<Input>,
    i: int,
    agents2: Seq<Agent>,
    foods2: Seq<Input>,
) -> bool {
    exists|draws: Seq<Seq<Position>>|
        agents2 == (#[trigger] collide_world(agents, foods, draws, i)).0 && foods2
            == collide_world(agents, foods, draws, i).1
}

/// A pass reads only the draws at the positions it still visits.
proof fn lemma_collide_foods_draws(
    a: Position,
    sat: usize,
    foods: Seq<Input>,
    d1: Seq<Position>,
    d2: Seq<Position>,
    j: int,
)
    requires
        forall|t: int| j <= t < foods.len() ==> d1[t] == d2[t],
    ensures
        collide_foods(a, sat, foods, d1, j) == collide_foods(a, sat, foods, d2, j),
    decreases foods.len() - j,
{
    if 0 <= j < foods.len() {
        if food_hit(a, foods[j].position) {
            assert(d1[j] == d2[j]);
            lemma_collide_foods_draws(
                a,
                fed(sat),
                foods.update(j, Input { position: d1[j] }),
                d1,
                d2,
                j + 1,
            );
        } else {
            lemma_collide_foods_draws(a, sat, foods, d1, d2, j + 1);
        }
    }
}

/// The sweep reads only the draw queues of the agents it still visits.
proof fn lemma_collide_world_draws(
    agents: Seq<Agent>,
    foods: Seq<Input>,
    d1: Seq<Seq<Position>>,
    d2: Seq<Seq<Position>>,
    i: int,
)
    requires
        forall|t: int| i <= t < agents.len() ==> d1[t] == d2[t],
    ensures
        collide_world(agents, foods, d1, i) == collide_world(agents, foods, d2, i),
    decreases agents.len() - i,
{
    if 0 <= i < agents.len() {
        assert(d1[i] == d2[i]);
        let pass = collide_foods(agents[i].position, agents[i].satiation, foods, d1[i], 0);
        lemma_collide_world_draws(
            agents.update(i, with_satiation(agents[i], pass.0)),
            pass.1,
            d1,
            d2,
            i + 1,
        );
    }
}

/// One agent's collision pass over the foods from index `j` on: radius
/// test, saturating meal, relocation, exactly as `collide_foods` lays it
/// out for some queue of draws.
fn collide_pass(
    a_pos: Position,
    sat: usize,
    inputs: &mut Vec<Input>,
    j: usize,
    rng: &mut StdRng,
) -> (r: usize)
    requires
        sat < 0x100_0000,
        j <= old(inputs)@.len(),
    ensures
        final(inputs)@.len() == old(inputs)@.len(),
        sat <= r < 0x100_0000,
        r <= sat + (old(inputs)@.len() - j),
        pass_explained(a_pos, sat, old(inputs)@, j as int, r, final(inputs)@),
    decreases inputs@.len() - j,
{
    let n = inputs.len();
    if j == n {
        proof {
            let d0 = Seq::<Position>::empty();
            assert(sat == (collide_foods(a_pos, sat, inputs@, d0, j as int)).0 && inputs@
                == collide_foods(a_pos, sat, inputs@, d0, j as int).1);
        }
        return sat;
    }
    let ghost foods0 = inputs@;
    let fp = inputs[j].position;
    let dx = f32_sub(fp.x, a_pos.x);
    let dy = f32_sub(fp.y, a_pos.y);
    let d2 = f32_add(f32_mul(dx, dx), f32_mul(dy, dy));
    if f32_le(d2, FOOD_RADIUS_SQ_BITS) {
        let sat2 = if sat < 0xFF_FFFF {
            sat + 1
        } else {
            sat
        };
        let np = random_position(rng);
        inputs.set(j, Input { position: np });
        let ghost updated = inputs@;
        let r = collide_pass(a_pos, sat2, inputs, j + 1, rng);
        proof {
            assert(updated == foods0.update(j as int, Input { position: np }));
            let d1 = choose|dd: Seq<Position>|
                r == (#[trigger] collide_foods(a_pos, sat2, updated, dd, j + 1)).0 && inputs@
                    == collide_foods(a_pos, sat2, updated, dd, j + 1).1;
            let d = Seq::new(foods0.len(), |t: int| if t == j { np } else { d1[t] });
            assert(d[j as int] == np);
            assert forall|t: int| j + 1 <= t < updated.len() implies d[t] == d1[t] by {}
            lemma_collide_foods_draws(a_pos, sat2, updated, d, d1, j + 1);
            assert(food_hit(a_pos, foods0[j as int].position));
            assert(fed(sat) == sat2);
            assert(collide_foods(a_pos, sat, foods0, d, j as int) == collide_foods(
                a_pos,
                sat2,
                updated,
                d,
                j + 1,
            ));
            assert(r == (collide_foods(a_pos, sat, foods0, d, j as int)).0 && inputs@
                == collide_foods(a_pos, sat, foods0, d, j as int).1);
        }
        r
    } else {
        let r = collide_pass(a_pos, sat, inputs, j + 1, rng);
        proof {
            let d1 = choose|dd: Seq<Position>|
                r == (#[trigger] collide_foods(a_pos, sat, foods0, dd, j + 1)).0 && inputs@
                    == collide_foods(a_pos, sat, foods0, dd, j + 1).1;
            assert(!food_hit(a_pos, foods0[j as int].position));
            assert(r == (collide_foods(a_pos, sat, foods0, d1, j as int)).0 && inputs@
                == collide_foods(a_pos, sat, foods0, d1, j as int).1);
        }
        r
    }
}

/// The sweep from agent `i` on: each agent's pass, then its new
/// satiation written back, exactly as `collide_world` lays it out for
/// some queues of draws.  Earlier agents are untouched.
fn collide_agents(
    agents: &mut Vec<Agent>,
    inputs: &mut Vec<Input>,
    i: usize,
    rng: &mut StdRng,
)
    requires
        i <= old(agents)@.len(),
        forall|t: int| 0 <= t < old(agents)@.len() ==> agent_wf(#[trigger] old(agents)@[t]),
    ensures
        final(agents)@.len() == old(agents)@.len(),
        final(inputs)@.len() == old(inputs)@.len(),
        forall|t: int| 0 <= t < i ==> #[trigger] final(agents)@[t] == old(agents)@[t],
        forall|t: int|
            0 <= t < old(agents)@.len() ==> agent_wf(#[trigger] final(agents)@[t]),
        forall|t: int|
            0 <= t < old(agents)@.len() ==> {
                let a0 = old(agents)@[t];
                let a1 = #[trigger] final(agents)@[t];
                &&& a1.position == a0.position
                &&& a1.rotation == a0.rotation
                &&& a1.speed == a0.speed
                &&& a1.eye == a0.eye
                &&& a1.brain == a0.brain
                &&& a1.satiation >= a0.satiation
                &&& a1.satiation <= a0.satiation + old(inputs)@.len()
            },
        collisions_explained(old(agents)@, old(inputs)@, i as int, final(agents)@, final(inputs)@),
    decreases agents@.len() - i,
{
    let n = agents.len();
    if i == n {
        proof {
            let d0 = Seq::<Seq<Position>>::empty();
            assert(agents@ == (collide_world(agents@, inputs@, d0, i as int)).0 && inputs@
                == collide_world(agents@, inputs@, d0, i as int).1);
        }
        return ;
    }
    let ghost agents0 = agents@;
    let ghost foods0 = inputs@;
    let a_pos = agents[i].position;
    let sat0 = agents[i].satiation;
    let s2 = collide_pass(a_pos, sat0, inputs, 0, rng);
    let ghost mid_foods = inputs@;
    let mut a = agents.remove(i);
    a.satiation = s2;
    agents.insert(i, a);
    proof {
        assert(agents@ =~= agents0.update(i as int, with_satiation(agents0[i as int], s2)));
    }
    let ghost mid_agents = agents@;
    collide_agents(agents, inputs, i + 1, rng);
    proof {
        let ds1 = choose|dd: Seq<Seq<Position>>|
            agents@ == (#[trigger] collide_world(mid_agents, mid_foods, dd, i + 1)).0 && inputs@
                == collide_world(mid_agents, mid_foods, dd, i + 1).1;
        let d = choose|dd: Seq<Position>|
            s2 == (#[trigger] collide_foods(a_pos, sat0, foods0, dd, 0)).0 && mid_foods
                == collide_foods(a_pos, sat0, foods0, dd, 0).1;
        let ds = Seq::new(agents0.len(), |t: int| if t == i { d } else { ds1[t] });
        assert(ds[i as int] == d);
        assert forall|t: int| i + 1 <= t < mid_agents.len() implies ds[t] == ds1[t] by {}
        lemma_collide_world_draws(mid_agents, mid_foods, ds, ds1, i + 1);
        assert(collide_foods(agents0[i as int].position, agents0[i as int].satiation, foods0, ds[i as int], 0)
            == (s2, mid_foods));
        assert(collide_world(agents0, foods0, ds, i as int) == collide_world(
            mid_agents,
            mid_foods,
            ds,
            i + 1,
        ));
        assert(agents@ == (collide_world(agents0, foods0, ds, i as int)).0 && inputs@
            == collide_world(agents0, foods0, ds, i as int).1);
    }
}

/// The genome descends, under the given mutation, from the flattened
/// brains of two members of the outgoing population: gene for gene a
/// parent's gene, kept or perturbed.
pub open spec fn brain_descends(olds: Seq<Agent>, m: GaussianMutation, g: Seq<u32>) -> bool {
    exists|pj: int, qj: int|
        #![trigger olds[pj], olds[qj]]
        0 <= pj < olds.len() && 0 <= qj < olds.len() && child_of(
            net_genome(olds[pj].brain.nn),
            net_genome(olds[qj].brain.nn),
            m,
            g,
        )
}

/// Every replacement agent's brain descends from the outgoing population.
pub open spec fn replaced_brains(olds: Seq<Agent>, m: GaussianMutation, news: Seq<Agent>) -> bool {
    forall|k: int|
        0 <= k < news.len() ==> brain_descends(
            olds,
            m,
            net_genome((#[trigger] news[k]).brain.nn),
        )
}

/// The simulation's standing invariant: a non-empty, boundedly sized
/// population of well-formed agents, a usable mutation operator, and an
/// age within the generation.
pub closed spec fn sim_wf(s: Simulation) -> bool {
    &&& 0 < s.world.agents@.len() < 0x1_0000
    &&& forall|i: int| 0 <= i < s.world.agents@.len() ==> agent_wf(#[trigger] s.world.agents@[i])
    &&& s.ga.mutation_spec().wf()
    &&& s.age <= GENERATION_LENGTH
}

impl Simulation {
    /// The world as the contracts see it.
    pub closed spec fn world_spec(&self) -> World {
        self.world
    }

    /// The generation's age as the contracts see it.
    pub closed spec fn age_spec(&self) -> usize {
        self.age
    }

    /// The installed genetic engine as the contracts see it.
    pub closed spec fn engine_spec(&self) -> GeneticAlgorithm<
        RankSelection,
        UniformCrossover,
        GaussianMutation,
    > {
        self.ga
    }

    /// A fresh simulation: a random world, and an engine installed with
    /// exactly rank selection, uniform crossover and the configured
    /// perturbation chance and coefficient.
    pub fn random(rng: &mut StdRng) -> (r: Self)
        ensures
            sim_wf(r),
            r.age_spec() == 0,
            r.world_spec().agents@.len() == crate::world::NUM_AGENTS,
            r.world_spec().inputs@.len() == crate::world::NUM_INPUTS,
            r.engine_spec().selection_spec() == RankSelection,
            r.engine_spec().crossover_spec() == UniformCrossover,
            r.engine_spec().mutation_spec() == (GaussianMutation {
                chance: MUT_CHANCE_BITS,
                coeff: MUT_COEFF_BITS,
            }),
    {
        let world = World::random(rng);
        let ga = GeneticAlgorithm::new(
            RankSelection,
            UniformCrossover,
            GaussianMutation::new(MUT_CHANCE_BITS, MUT_COEFF_BITS),
        );
        Simulation { world, ga, age: 0 }
    }

    /// Read-only access to the world.
    pub fn world(&self) -> (r: &World)
        ensures
            *r == self.world_spec(),
    {
        &self.world
    }

    /// Sense and think for every agent: the eye's histogram over the
    /// agent's readings feeds the brain, whose two outputs set the new
    /// speed and heading; everything else about the world is untouched.
    pub fn process_brains(&mut self, readings: &Vec<Vec<FoodReading>>)
        requires
            sim_wf(*old(self)),
            readings@.len() == old(self).world_spec().agents@.len(),
        ensures
            sim_wf(*final(self)),
            final(self).engine_spec() == old(self).engine_spec(),
            final(self).age_spec() == old(self).age_spec(),
            final(self).world_spec().inputs == old(self).world_spec().inputs,
            final(self).world_spec().agents@.len() == old(self).world_spec().agents@.len(),
            forall|i: int|
                0 <= i < readings@.len() ==> {
                    let a0 = old(self).world_spec().agents@[i];
                    let a1 = #[trigger] final(self).world_spec().agents@[i];
                    &&& a1.position == a0.position
                    &&& a1.eye == a0.eye
                    &&& a1.brain == a0.brain
                    &&& a1.satiation == a0.satiation
                    &&& a1.speed == thought_speed(a0, readings@[i]@)
                    &&& a1.rotation == thought_rotation(a0, readings@[i]@)
                },
    {
        let ghost orig = self.world.agents@;
        let n = self.world.agents.len();
        let mut pending: Vec<Agent> = Vec::new();
        core::mem::swap(&mut pending, &mut self.world.agents);
        let mut done: Vec<Agent> = Vec::new();
        let mut i: usize = 0;
        while i < n
            invariant
                n == orig.len(),
                readings@.len() == n,
                i <= n,
                pending@ =~= orig.subrange(i as int, n as int),
                done@.len() == i,
                forall|t: int| 0 <= t < n ==> agent_wf(#[trigger] orig[t]),
                forall|t: int|
                    0 <= t < i ==> {
                        let a0 = orig[t];
                        let a1 = #[trigger] done@[t];
                        &&& a1.position == a0.position
                        &&& a1.eye == a0.eye
                        &&& a1.brain == a0.brain
                        &&& a1.satiation == a0.satiation
                        &&& a1.speed == thought_speed(a0, readings@[t]@)
                        &&& a1.rotation == thought_rotation(a0, readings@[t]@)
                    },
                forall|t: int| 0 <= t < i ==> agent_wf(#[trigger] done@[t]),
            decreases n - i,
        {
            let a = pending.remove(0);
            proof {
                assert(a == orig[i as int]);
                assert(pending@ =~= orig.subrange(i + 1, n as int));
                lemma_vision_len(a.eye, a.rotation, readings@[i as int]@,
                    readings@[i as int]@.len() as int);
                lemma_matches_chain(a.brain.nn.layers@, brain_topology(a.eye));
            }
            let vision = a.eye.process_vision(a.rotation, &readings[i]);
            proof {
                lemma_net_out_len(a.brain.nn.layers@, vision@);
                assert(a.brain.nn.layers@.last() == a.brain.nn.layers@[1]);
            }
            let response = a.brain.nn.propagate(vision);
            let dspeed = f32_clamp(response[0], NEG_SPEED_ACCEL_BITS, SPEED_ACCEL_BITS);
            let drot = f32_clamp(response[1], NEG_ROTATION_ACCEL_BITS, ROTATION_ACCEL_BITS);
            let speed = f32_clamp(f32_add(a.speed, dspeed), SPEED_MIN_BITS, SPEED_MAX_BITS);
            let rotation = f32_wrap_pi(f32_add(a.rotation, drot));
            let a2 = Agent {
                position: a.position,
                rotation,
                speed,
                eye: a.eye,
                brain: a.brain,
                satiation: a.satiation,
            };
            done.push(a2);
            i = i + 1;
        }
        self.world.agents = done;
    }

    /// Collide every agent with every food item, in agent-major,
    /// food-minor order: a food within the consumption radius (compared
    /// by squared distance) feeds the agent and is relocated to a fresh
    /// random position, in place, so a later agent sees the new
    /// position.  The whole outcome is the `collide_world` sweep for
    /// some queues of relocation draws; agents only gain satiation, and
    /// nothing else moves.
    pub fn process_collisions(&mut self, rng: &mut StdRng)
        requires
            sim_wf(*old(self)),
        ensures
            sim_wf(*final(self)),
            final(self).engine_spec() == old(self).engine_spec(),
            final(self).age_spec() == old(self).age_spec(),
            final(self).world_spec().agents@.len() == old(self).world_spec().agents@.len(),
            final(self).world_spec().inputs@.len() == old(self).world_spec().inputs@.len(),
            collisions_explained(
                old(self).world_spec().agents@,
                old(self).world_spec().inputs@,
                0,
                final(self).world_spec().agents@,
                final(self).world_spec().inputs@,
            ),
            forall|i: int|
                0 <= i < old(self).world_spec().agents@.len() ==> {
                    let a0 = old(self).world_spec().agents@[i];
                    let a1 = #[trigger] final(self).world_spec().agents@[i];
                    &&& a1.position == a0.position
                    &&& a1.rotation == a0.rotation
                    &&& a1.speed == a0.speed
                    &&& a1.eye == a0.eye
                    &&& a1.brain == a0.brain
                    &&& a1.satiation >= a0.satiation
                    &&& a1.satiation <= a0.satiation + old(self).world_spec().inputs@.len()
                },
    {
        collide_agents(&mut self.world.agents, &mut self.world.inputs, 0, rng);
    }

    /// Move every agent along its heading by its speed, wrapping both
    /// coordinates onto the unit torus; the runtime supplies each
    /// heading's cosine and sine.  Nothing else changes.
    pub fn process_movements(&mut self, trigs: &Vec<HeadingTrig>)
        requires
            sim_wf(*old(self)),
            trigs@.len() == old(self).world_spec().agents@.len(),
        ensures
            sim_wf(*final(self)),
            final(self).engine_spec() == old(self).engine_spec(),
            final(self).age_spec() == old(self).age_spec(),
            final(self).world_spec().inputs == old(self).world_spec().inputs,
            final(self).world_spec().agents@.len() == old(self).world_spec().agents@.len(),
            forall|i: int|
                0 <= i < trigs@.len() ==> {
                    let a0 = old(self).world_spec().agents@[i];
                    let a1 = #[trigger] final(self).world_spec().agents@[i];
                    &&& a1.position.x == moved_coord(a0.position.x, trigs@[i].cos, a0.speed)
                    &&& a1.position.y == moved_coord(a0.position.y, trigs@[i].sin, a0.speed)
                    &&& a1.rotation == a0.rotation
                    &&& a1.speed == a0.speed
                    &&& a1.eye == a0.eye
                    &&& a1.brain == a0.brain
                    &&& a1.satiation == a0.satiation
                },
    {
        let ghost orig = self.world.agents@;
        let n = self.world.agents.len();
        let mut pending: Vec<Agent> = Vec::new();
        core::mem::swap(&mut pending, &mut self.world.agents);
        let mut done: Vec<Agent> = Vec::new();
        let mut i: usize = 0;
        while i < n
            invariant
                n == orig.len(),
                trigs@.len() == n,
                i <= n,
                pending@ =~= orig.subrange(i as int, n as int),
                done@.len() == i,
                forall|t: int| 0 <= t < n ==> agent_wf(#[trigger] orig[t]),
                forall|t: int|
                    0 <= t < i ==> {
                        let a0 = orig[t];
                        let a1 = #[trigger] done@[t];
                        &&& a1.position.x == moved_coord(a0.position.x, trigs@[t].cos, a0.speed)
                        &&& a1.position.y == moved_coord(a0.position.y, trigs@[t].sin, a0.speed)
                        &&& a1.rotation == a0.rotation
                        &&& a1.speed == a0.speed
                        &&& a1.eye == a0.eye
                        &&& a1.brain == a0.brain
                        &&& a1.satiation == a0.satiation
                    },
                forall|t: int| 0 <= t < i ==> agent_wf(#[trigger] done@[t]),
            decreases n - i,
        {
            let a = pending.remove(0);
            proof {
                assert(a == orig[i as int]);
                assert(pending@ =~= orig.subrange(i + 1, n as int));
            }
            let tr = trigs[i];
            let x = f32_wrap_unit(f32_add(a.position.x, f32_mul(tr.cos, a.speed)));
            let y = f32_wrap_unit(f32_add(a.position.y, f32_mul(tr.sin, a.speed)));
            let a2 = Agent {
                position: Position { x, y },
                rotation: a.rotation,
                speed: a.speed,
                eye: a.eye,
                brain: a.brain,
                satiation: a.satiation,
            };
            done.push(a2);
            i = i + 1;
        }
        self.world.agents = done;
    }

    /// Count the tick and, once the generation is over, replace the
    /// population: agents become individuals whose fitness is their
    /// satiation, the engine evolves them, and fresh agents are rebuilt
    /// from the evolved genomes at random positions with empty stomachs.
    /// The food stays where it is across the boundary.
    pub fn tick_epoch(&mut self, rng: &mut StdRng)
        requires
            sim_wf(*old(self)),
        ensures
            sim_wf(*final(self)),
            final(self).engine_spec() == old(self).engine_spec(),
            final(self).world_spec().agents@.len() == old(self).world_spec().agents@.len(),
            final(self).world_spec().inputs == old(self).world_spec().inputs,
            old(self).age_spec() + 1 <= GENERATION_LENGTH ==> {
                &&& final(self).age_spec() == old(self).age_spec() + 1
                &&& final(self).world_spec() == old(self).world_spec()
            },
            old(self).age_spec() + 1 > GENERATION_LENGTH ==> {
                &&& final(self).age_spec() == 0
                &&& forall|i: int|
                    0 <= i < final(self).world_spec().agents@.len() ==> (
                    #[trigger] final(self).world_spec().agents@[i]).satiation == 0
                &&& forall|i: int|
                    0 <= i < final(self).world_spec().agents@.len() ==> (
                    #[trigger] final(self).world_spec().agents@[i]).speed == SPEED_INIT_BITS
                &&& forall|i: int|
                    0 <= i < final(self).world_spec().agents@.len() ==> unit_position(
                        (#[trigger] final(self).world_spec().agents@[i]).position,
                    )
                &&& replaced_brains(
                    old(self).world_spec().agents@,
                    old(self).engine_spec().mutation_spec(),
                    final(self).world_spec().agents@,
                )
            },
    {
        self.age = self.age + 1;
        if self.age > GENERATION_LENGTH {
            self.evolve(rng);
        }
    }

    /// The generational replacement itself.
    fn evolve(&mut self, rng: &mut StdRng)
        requires
            0 < old(self).world.agents@.len() < 0x1_0000,
            forall|i: int|
                0 <= i < old(self).world.agents@.len() ==> agent_wf(
                    #[trigger] old(self).world.agents@[i],
                ),
            old(self).ga.mutation_spec().wf(),
        ensures
            final(self).age == 0,
            final(self).ga == old(self).ga,
            final(self).world.inputs == old(self).world.inputs,
            final(self).world.agents@.len() == old(self).world.agents@.len(),
            forall|i: int|
                0 <= i < final(self).world.agents@.len() ==> agent_wf(
                    #[trigger] final(self).world.agents@[i],
                ),
            forall|i: int|
                0 <= i < final(self).world.agents@.len() ==> (
                #[trigger] final(self).world.agents@[i]).satiation == 0,
            forall|i: int|
                0 <= i < final(self).world.agents@.len() ==> (
                #[trigger] final(self).world.agents@[i]).speed == SPEED_INIT_BITS,
            forall|i: int|
                0 <= i < final(self).world.agents@.len() ==> unit_position(
                    (#[trigger] final(self).world.agents@[i]).position,
                ),
            replaced_brains(
                old(self).world.agents@,
                old(self).ga.mutation_spec(),
                final(self).world.agents@,
            ),
    {
        self.age = 0;
        let ghost orig = self.world.agents@;
        let n = self.world.agents.len();
        let ghost glen = genome_len(brain_topology(default_eye()));
        let mut population: Vec<AgentIndividual> = Vec::new();
        let mut i: usize = 0;
        while i < n
            invariant
                n == orig.len(),
                self.world.agents@ == orig,
                forall|t: int| 0 <= t < n ==> agent_wf(#[trigger] orig[t]),
                i <= n,
                glen == genome_len(brain_topology(default_eye())),
                population@.len() == i,
                forall|t: int|
                    0 <= t < i ==> (#[trigger] population@[t]).chromosome_spec().len() == glen,
                forall|t: int|
                    0 <= t < i ==> (#[trigger] population@[t]).chromosome_spec() == net_genome(
                        orig[t].brain.nn,
                    ),
            decreases n - i,
        {
            proof {
                lemma_brain_genome_len(self.world.agents@[i as int].brain, default_eye());
            }
            let ind = AgentIndividual::from_agent(&self.world.agents[i]);
            population.push(ind);
            i = i + 1;
        }
        proof {
            assert(crate::ga::uniform_genomes(population@));
        }
        let mut evolved = self.ga.evolve(rng, &population);
        let ghost pop = population@;
        let mut fresh: Vec<Agent> = Vec::new();
        let ghost mut lineage: Seq<(int, int)> = Seq::empty();
        let en = evolved.len();
        let mut k: usize = 0;
        while k < en
            invariant
                en == n,
                n == orig.len(),
                evolved@.len() == en - k,
                k <= en,
                glen == genome_len(brain_topology(default_eye())),
                pop == population@,
                pop.len() == n,
                forall|t: int|
                    0 <= t < n ==> (#[trigger] pop[t]).chromosome_spec() == net_genome(
                        orig[t].brain.nn,
                    ),
                forall|t: int|
                    0 <= t < evolved@.len() ==> (#[trigger] evolved@[t]).chromosome_spec().len()
                        == glen,
                forall|t: int|
                    0 <= t < evolved@.len() ==> descends_from(
                        pop,
                        self.ga.mutation_spec(),
                        (#[trigger] evolved@[t]).chromosome_spec(),
                    ),
                fresh@.len() == k,
                lineage.len() == k,
                forall|t: int| 0 <= t < k ==> agent_wf(#[trigger] fresh@[t]),
                forall|t: int| 0 <= t < k ==> (#[trigger] fresh@[t]).satiation == 0,
                forall|t: int| 0 <= t < k ==> (#[trigger] fresh@[t]).speed == SPEED_INIT_BITS,
                forall|t: int| 0 <= t < k ==> unit_position((#[trigger] fresh@[t]).position),
                forall|t: int|
                    0 <= t < k ==> 0 <= (#[trigger] lineage[t]).0 < n && 0 <= lineage[t].1 < n
                        && child_of(
                        net_genome(orig[lineage[t].0].brain.nn),
                        net_genome(orig[lineage[t].1].brain.nn),
                        self.ga.mutation_spec(),
                        net_genome(fresh@[t].brain.nn),
                    ),
            decreases en - k,
        {
            let ghost old_fresh = fresh@;
            let ghost old_lineage = lineage;
            let ind = evolved.remove(0);
            let ghost ind_genes = ind.chromosome_spec();
            proof {
                assert(descends_from(pop, self.ga.mutation_spec(), ind_genes));
            }
            let ghost pq = choose|pj: int, qj: int|
                0 <= pj < pop.len() && 0 <= qj < pop.len() && child_of(
                    pop[pj].chromosome_spec(),
                    pop[qj].chromosome_spec(),
                    self.ga.mutation_spec(),
                    ind_genes,
                );
            let a = ind.into_agent(rng);
            fresh.push(a);
            proof {
                lineage = lineage.push(pq);
                assert(net_genome(a.brain.nn) == ind_genes);
                assert forall|t: int|
                    0 <= t < k + 1 implies 0 <= (#[trigger] lineage[t]).0 < n && 0
                        <= lineage[t].1 < n && child_of(
                    net_genome(orig[lineage[t].0].brain.nn),
                    net_genome(orig[lineage[t].1].brain.nn),
                    self.ga.mutation_spec(),
                    net_genome(fresh@[t].brain.nn),
                ) by {
                    if t < k {
                        assert(fresh@[t] == old_fresh[t]);
                        assert(lineage[t] == old_lineage[t]);
                    } else {
                        assert(fresh@[t] == a);
                        assert(lineage[t] == pq);
                        assert(pop[pq.0].chromosome_spec() == net_genome(orig[pq.0].brain.nn));
                        assert(pop[pq.1].chromosome_spec() == net_genome(orig[pq.1].brain.nn));
                    }
                }
            }
            k = k + 1;
        }
        proof {
            assert forall|t: int|
                #![trigger fresh@[t]]
                0 <= t < fresh@.len() implies brain_descends(
                orig,
                self.ga.mutation_spec(),
                net_genome(fresh@[t].brain.nn),
            ) by {
                let pj = lineage[t].0;
                let qj = lineage[t].1;
                assert(0 <= pj < orig.len() && 0 <= qj < orig.len() && child_of(
                    net_genome(orig[pj].brain.nn),
                    net_genome(orig[qj].brain.nn),
                    self.ga.mutation_spec(),
                    net_genome(fresh@[t].brain.nn),
                ));
            }
            assert(replaced_brains(orig, self.ga.mutation_spec(), fresh@));
        }
        self.world.agents = fresh;
    }
}

} // verus!
