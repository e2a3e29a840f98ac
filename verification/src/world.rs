//! The environment: food, brains, agents and the world that holds them.
//!
//! Positions live on the unit torus; coordinates, headings and speeds are
//! float patterns.  An agent couples a body (position, heading, speed)
//! with an eye, a brain — a network shaped by the eye's cell count — and
//! a satiation counter that doubles as fitness when a generation ends.

use vstd::prelude::*;
use rand::rngs::StdRng;
use crate::chromosome::Chromosome;
use crate::eye::{Eye, FOV_RANGE_BITS, FOV_ANGLE_BITS, CELLS};
use crate::float_bits::{uint_bits, f32_from_uint, mag_bits, sign_bits, ONE_BITS, POS_ZERO};
use crate::ga::Individual;
use crate::network::{
    genome_len, lemma_layers_genome_len, matches_topology, net_genome, LayerTopology, Network,
};
use crate::rng::{draw_angle, draw_unit};

verus! {

/// Bit pattern of a fresh agent's starting speed.
pub const SPEED_INIT_BITS: u32 = 0x3951_B717;

/// Agents in a fresh world.
pub const NUM_AGENTS: usize = 20;

/// Food items in a fresh world.
pub const NUM_INPUTS: usize = 40;

/// A point of the unit square, as two float patterns.
#[derive(Clone, Copy, Debug, PartialEq, Eq, Structural)]
pub struct Position {
    pub x: u32,
    pub y: u32,
}

/// One stationary food item.
#[derive(Clone, Copy, Debug)]
pub struct Input {
    pub position: Position,
}

/// The network that turns an eye's histogram into motor commands.
#[derive(Clone, Debug)]
pub struct Brain {
    pub nn: Network,
}

/// Physical and cognitive state of one agent.
#[derive(Clone, Debug)]
pub struct Agent {
    pub position: Position,
    pub rotation: u32,
    pub speed: u32,
    pub eye: Eye,
    pub brain: Brain,
    pub satiation: usize,
}

/// The fitness-and-genome view of an agent that the genetic engine sees.
#[derive(Clone, Debug)]
pub struct AgentIndividual {
    pub fitness: u32,
    pub chromosome: Chromosome,
}

/// The agent and food collections.
#[derive(Clone, Debug)]
pub struct World {
    pub agents: Vec<Agent>,
    pub inputs: Vec<Input>,
}

/// The coordinate pattern lies in the unit interval: non-negative and
/// strictly below one.
pub open spec fn unit_coord(b: u32) -> bool {
    !sign_bits(b) && mag_bits(b) < ONE_BITS
}

/// Both coordinates lie in the unit interval.
pub open spec fn unit_position(p: Position) -> bool {
    unit_coord(p.x) && unit_coord(p.y)
}

/// A uniformly drawn point of the unit square: one unit draw per
/// coordinate, abscissa first.
pub(crate) fn random_position(rng: &mut StdRng) -> (r: Position)
    ensures
        unit_position(r),
{
    let x = draw_unit(rng);
    let y = draw_unit(rng);
    Position { x, y }
}

/// The boundary shape of a brain serving the given eye: the cells feed a
/// hidden layer of twice as many neurons, which feeds the two motor
/// outputs.
pub open spec fn brain_topology(eye: Eye) -> Seq<LayerTopology> {
    seq![
        LayerTopology { neurons: eye.cells },
        LayerTopology { neurons: (2 * eye.cells) as usize },
        LayerTopology { neurons: 2 },
    ]
}

/// The brain's network has the shape its eye calls for.
pub open spec fn brain_wf(b: Brain, eye: Eye) -> bool {
    matches_topology(b.nn.layers@, brain_topology(eye))
}

/// The eye every fresh agent carries.
pub open spec fn default_eye() -> Eye {
    Eye { fov_range: FOV_RANGE_BITS, fov_angle: FOV_ANGLE_BITS, cells: CELLS }
}

/// The agent's pieces fit together: the default eye, a brain of the shape
/// the eye calls for, and a satiation counter small enough to convert
/// exactly.
pub open spec fn agent_wf(a: Agent) -> bool {
    &&& a.eye == default_eye()
    &&& brain_wf(a.brain, a.eye)
    &&& a.satiation < 0x100_0000
}

impl Brain {
    /// The topology the eye calls for, as a vector.
    pub fn topology(eye: &Eye) -> (r: Vec<LayerTopology>)
        requires
            eye.cells < 0x100_0000,
        ensures
            r@ == brain_topology(*eye),
    {
        let mut t: Vec<LayerTopology> = Vec::new();
        t.push(LayerTopology { neurons: eye.cells });
        t.push(LayerTopology { neurons: 2 * eye.cells });
        t.push(LayerTopology { neurons: 2 });
        proof {
            assert(t@ =~= brain_topology(*eye));
        }
        t
    }

    /// A brain with uniformly drawn weights for the given eye.
    pub fn random(rng: &mut StdRng, eye: &Eye) -> (r: Self)
        requires
            eye.cells < 0x100_0000,
        ensures
            brain_wf(r, *eye),
    {
        let topo = Self::topology(eye);
        let nn = Network::random(rng, &topo);
        Brain { nn }
    }

    /// Rebuilds a brain from a genome of exactly the expected length.
    pub fn from_chromosome(chromosome: Chromosome, eye: &Eye) -> (r: Self)
        requires
            eye.cells < 0x100_0000,
            chromosome@.len() == genome_len(brain_topology(*eye)),
        ensures
            brain_wf(r, *eye),
            net_genome(r.nn) == chromosome@,
    {
        let topo = Self::topology(eye);
        match Network::from_weights(&topo, &chromosome) {
            Ok(nn) => Brain { nn },
            Err(_) => unreached(),
        }
    }

    /// The brain flattened to a genome.
    pub fn as_chromosome(&self) -> (r: Chromosome)
        ensures
            r@ == net_genome(self.nn),
    {
        Chromosome::from_genes(self.nn.weights())
    }
}

impl Agent {
    /// A body around the given eye and brain: random position, then
    /// random heading, starting speed, empty stomach.
    fn new(eye: Eye, brain: Brain, rng: &mut StdRng) -> (r: Self)
        requires
            brain_wf(brain, eye),
            eye == default_eye(),
        ensures
            agent_wf(r),
            r.satiation == 0,
            r.eye == eye,
            r.brain == brain,
            r.speed == SPEED_INIT_BITS,
            unit_position(r.position),
    {
        let position = random_position(rng);
        let rotation = draw_angle(rng);
        Agent { position, rotation, speed: SPEED_INIT_BITS, eye, brain, satiation: 0 }
    }

    /// A fresh agent: default eye, random brain, random body with the
    /// starting speed and a position on the unit square.
    pub fn random(rng: &mut StdRng) -> (r: Self)
        ensures
            agent_wf(r),
            r.satiation == 0,
            r.speed == SPEED_INIT_BITS,
            unit_position(r.position),
    {
        let eye = Eye::default();
        let brain = Brain::random(rng, &eye);
        Agent::new(eye, brain, rng)
    }

    /// The agent's brain flattened to a genome.
    pub(crate) fn as_chromosome(&self) -> (r: Chromosome)
        ensures
            r@ == net_genome(self.brain.nn),
    {
        self.brain.as_chromosome()
    }

    /// A fresh body around a brain rebuilt from the genome.
    pub(crate) fn from_chromosome(chromosome: Chromosome, rng: &mut StdRng) -> (r: Self)
        requires
            chromosome@.len() == genome_len(brain_topology(default_eye())),
        ensures
            agent_wf(r),
            r.satiation == 0,
            r.speed == SPEED_INIT_BITS,
            unit_position(r.position),
            net_genome(r.brain.nn) == chromosome@,
    {
        let eye = Eye::default();
        let brain = Brain::from_chromosome(chromosome, &eye);
        Agent::new(eye, brain, rng)
    }

    /// The agent's position.
    pub fn position(&self) -> (r: Position)
        ensures
            r == self.position,
    {
        self.position
    }

    /// The agent's heading angle.
    pub fn rotation(&self) -> (r: u32)
        ensures
            r == self.rotation,
    {
        self.rotation
    }
}

impl Individual for AgentIndividual {
    /// The stored fitness pattern.
    open spec fn fitness_spec(&self) -> u32 {
        self.fitness
    }

    /// The stored genome.
    open spec fn chromosome_spec(&self) -> Seq<u32> {
        self.chromosome@
    }

    fn create(chromosome: Chromosome) -> (r: Self)
        ensures
            r.fitness == POS_ZERO,
    {
        AgentIndividual { fitness: POS_ZERO, chromosome }
    }

    fn fitness(&self) -> (r: u32) {
        self.fitness
    }

    fn chromosome(&self) -> (r: &Chromosome) {
        &self.chromosome
    }
}

impl AgentIndividual {
    /// Snapshots an agent: its satiation, exactly converted, becomes the
    /// fitness, and its brain's flattened weights become the genome.
    pub fn from_agent(agent: &Agent) -> (r: Self)
        requires
            agent.satiation < 0x100_0000,
        ensures
            r.fitness == uint_bits(agent.satiation),
            r.chromosome@ == net_genome(agent.brain.nn),
    {
        let fitness = f32_from_uint(agent.satiation);
        let chromosome = agent.as_chromosome();
        AgentIndividual { fitness, chromosome }
    }

    /// Rebuilds a fresh agent around the carried genome.
    pub fn into_agent(self, rng: &mut StdRng) -> (r: Agent)
        requires
            self.chromosome@.len() == genome_len(brain_topology(default_eye())),
        ensures
            agent_wf(r),
            r.satiation == 0,
            r.speed == SPEED_INIT_BITS,
            unit_position(r.position),
            net_genome(r.brain.nn) == self.chromosome_spec(),
    {
        Agent::from_chromosome(self.chromosome, rng)
    }
}

impl Input {
    /// A food item at a uniformly drawn position.
    pub fn random(rng: &mut StdRng) -> (r: Self)
        ensures
            unit_position(r.position),
    {
        Input { position: random_position(rng) }
    }

    /// The food's position.
    pub fn position(&self) -> (r: Position)
        ensures
            r == self.position,
    {
        self.position
    }
}

impl World {
    /// A fresh world: the agents drawn first, then the food.
    pub fn random(rng: &mut StdRng) -> (r: Self)
        ensures
            r.agents@.len() == NUM_AGENTS,
            r.inputs@.len() == NUM_INPUTS,
            forall|i: int| 0 <= i < r.agents@.len() ==> agent_wf(#[trigger] r.agents@[i]),
            forall|i: int| 0 <= i < r.agents@.len() ==> (#[trigger] r.agents@[i]).satiation == 0,
            forall|i: int|
                0 <= i < r.agents@.len() ==> (#[trigger] r.agents@[i]).speed == SPEED_INIT_BITS,
            forall|i: int|
                0 <= i < r.agents@.len() ==> unit_position((#[trigger] r.agents@[i]).position),
            forall|i: int|
                0 <= i < r.inputs@.len() ==> unit_position((#[trigger] r.inputs@[i]).position),
    {
        let mut agents: Vec<Agent> = Vec::new();
        let mut i: usize = 0;
        while i < NUM_AGENTS
            invariant
                i <= NUM_AGENTS,
                agents@.len() == i,
                forall|t: int| 0 <= t < i ==> agent_wf(#[trigger] agents@[t]),
                forall|t: int| 0 <= t < i ==> (#[trigger] agents@[t]).satiation == 0,
                forall|t: int| 0 <= t < i ==> (#[trigger] agents@[t]).speed == SPEED_INIT_BITS,
                forall|t: int| 0 <= t < i ==> unit_position((#[trigger] agents@[t]).position),
            decreases NUM_AGENTS - i,
        {
            let a = Agent::random(rng);
            agents.push(a);
            i = i + 1;
        }
        let mut inputs: Vec<Input> = Vec::new();
        let mut j: usize = 0;
        while j < NUM_INPUTS
            invariant
                j <= NUM_INPUTS,
                inputs@.len() == j,
                forall|t: int| 0 <= t < j ==> unit_position((#[trigger] inputs@[t]).position),
            decreases NUM_INPUTS - j,
        {
            let f = Input::random(rng);
            inputs.push(f);
            j = j + 1;
        }
        World { agents, inputs }
    }

    /// The agents, in order.
    pub fn agents(&self) -> (r: &Vec<Agent>)
        ensures
            r == &self.agents,
    {
        &self.agents
    }

    /// The food items, in order.
    pub fn inputs(&self) -> (r: &Vec<Input>)
        ensures
            r == &self.inputs,
    {
        &self.inputs
    }
}

/// Every agent of one eye carries a genome of one shared length: the
/// length the eye's topology calls for.
pub proof fn lemma_brain_genome_len(b: Brain, eye: Eye)
    requires
        brain_wf(b, eye),
    ensures
        net_genome(b.nn).len() == genome_len(brain_topology(eye)),
{
    lemma_layers_genome_len(b.nn.layers@, brain_topology(eye), b.nn.layers@.len() as int);
}

} // verus!
