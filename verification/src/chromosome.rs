//! The genome: an ordered, fixed-length sequence of genes.
//!
//! A gene is the raw bit pattern of one 32-bit float weight.  The genome
//! is the sole interchange format between the network and the genetic
//! engine: the network flattens to it and is rebuilt from it, and the
//! genetic operators only ever copy or replace whole genes.

use vstd::prelude::*;

verus! {

/// An ordered sequence of genes, viewed as the sequence of their patterns.
#[derive(Clone, Debug)]
pub struct Chromosome {
    genes: Vec<u32>,
}

impl View for Chromosome {
    type V = Seq<u32>;

    closed spec fn view(&self) -> Seq<u32> {
        self.genes@
    }
}

impl Chromosome {
    /// Wraps a gene vector unchanged.
    pub fn from_genes(genes: Vec<u32>) -> (r: Self)
        ensures
            r@ == genes@,
    {
        Chromosome { genes }
    }

    /// The number of genes.
    pub fn len(&self) -> (r: usize)
        ensures
            r == self@.len(),
    {
        self.genes.len()
    }

    /// The gene at an index.
    pub fn get(&self, index: usize) -> (r: u32)
        requires
            index < self@.len(),
        ensures
            r == self@[index as int],
    {
        self.genes[index]
    }

    /// The genes as a plain vector.
    pub fn genes(&self) -> (r: &Vec<u32>)
        ensures
            r@ == self@,
    {
        &self.genes
    }
}

} // verus!
