//! An evolving population of simple agents, each steered by a small
//! feed-forward neural network, in a bounded world of food points.
//!
//! Agents sense food through a cone-shaped eye, turn the perception into
//! motor commands through their network, move, and gain satiation by
//! touching food; every fixed number of ticks the population is replaced
//! through rank selection, uniform crossover and bounded perturbation of
//! the networks' weights, treated as genomes.
//!
//! Every float of the design is carried as its raw 32-bit
//! pattern, so bit-for-bit behaviour can be stated and proved as plain
//! integer facts: the rounded arithmetic itself is performed by a
//! software IEEE-754 implementation behind named, trusted operations,
//! while comparisons, casts, the genome bridge, the genetic operators
//! and the whole tick logic are verified here.  Only square roots and
//! trigonometry stay outside: the surrounding runtime supplies them as
//! readings, and every decision taken on them is verified.

pub mod arith;
pub mod chromosome;
pub mod eye;
pub mod float_bits;
pub mod ga;
pub mod network;
pub mod rng;
pub mod sim;
pub mod world;
