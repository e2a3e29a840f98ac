//! The genetic engine: rank-based selection, uniform crossover, bounded
//! signed perturbation, and the generational orchestrator that combines
//! the three over any entity exposing a fitness and a genome.

use vstd::prelude::*;
use rand::rngs::StdRng;
use crate::arith::{add_bits, mul_bits, f32_add, f32_mul};
use crate::chromosome::Chromosome;
use crate::float_bits::{
    gt_bits, lt_bits, is_nan_bits, is_zero_bits, f32_gt, lemma_lt_asym, lemma_lt_le_trans,
    lemma_total, prob_bits, ONE_BITS, NEG_ONE_BITS,
};
use crate::rng::{
    bernoulli, coin, choose_weighted_pair, draw_unit, weight_sum, has_positive_weight,
    is_weighted_pick,
};

verus! {

/// An entity the genetic engine can evolve: it reports a fitness, carries
/// a genome, and can be rebuilt around a new genome.
pub trait Individual: Sized {
    /// The fitness pattern the individual reports.  An implementor ties
    /// it down by overriding; left alone it promises nothing.
    open spec fn fitness_spec(&self) -> u32 {
        arbitrary()
    }

    /// The genes the individual carries.
    open spec fn chromosome_spec(&self) -> Seq<u32> {
        arbitrary()
    }

    /// Builds the individual around a genome, which it then carries.
    fn create(chromosome: Chromosome) -> (r: Self)
        ensures
            r.chromosome_spec() == chromosome@,
    ;

    /// The fitness pattern.
    fn fitness(&self) -> (r: u32)
        ensures
            r == self.fitness_spec(),
    ;

    /// The carried genome.
    fn chromosome(&self) -> (r: &Chromosome)
        ensures
            r@ == self.chromosome_spec(),
    ;
}

/// Picks one member of a non-empty population.
pub trait SelectionMethod {
    fn select<'a, I: Individual>(&self, rng: &mut StdRng, population: &'a Vec<I>) -> (r: &'a I)
        requires
            population@.len() > 0,
            population@.len() < 0x1_0000,
        ensures
            exists|j: int| 0 <= j < population@.len() && *r == population@[j],
    ;
}

/// Mixes two equal-length genomes gene by gene: every child gene is copied
/// whole from one parent or the other, never blended.
pub trait CrossoverMethod {
    fn crossover(&self, rng: &mut StdRng, parent_a: &Chromosome, parent_b: &Chromosome) -> (r:
        Chromosome)
        requires
            parent_a@.len() == parent_b@.len(),
        ensures
            r@.len() == parent_a@.len(),
            forall|t: int|
                0 <= t < r@.len() ==> #[trigger] r@[t] == parent_a@[t] || r@[t] == parent_b@[t],
    ;
}

/// Rewrites some genes of a child genome in place, keeping its length:
/// mutation is pointwise, and each rewritten gene satisfies the
/// operator's own gene relation.
pub trait MutationMethod {
    /// The operator's parameters are in range.
    spec fn wf(&self) -> bool;

    /// How one gene may be rewritten.
    spec fn gene_rel(&self, g: u32, r: u32) -> bool;

    fn mutate(&self, rng: &mut StdRng, child: &mut Chromosome)
        requires
            self.wf(),
        ensures
            final(child)@.len() == old(child)@.len(),
            forall|t: int|
                0 <= t < old(child)@.len() ==> final(child)@[t] == old(child)@[t]
                    || self.gene_rel(old(child)@[t], #[trigger] final(child)@[t]),
    ;
}

/// Rank-based selection: the population is ordered ascending by fitness,
/// the member at sorted position t weighs t + 1, and one member is drawn
/// with probability proportional to that rank.
pub struct RankSelection;

/// Uniform crossover: each gene is taken from either parent with even
/// odds, one coin per gene.
pub struct UniformCrossover;

/// Bounded signed perturbation: with probability `chance` a gene moves by
/// `sign * coeff * u` for a fresh unit draw `u` and an even-odds sign.
/// (Named for the classic operator, though the magnitude here is
/// uniform, not normal; the bounded draw is the intended behaviour.)
pub struct GaussianMutation {
    pub chance: u32,
    pub coeff: u32,
}

/// No pattern in the sequence is a NaN.
pub open spec fn no_nans(s: Seq<u32>) -> bool {
    forall|t: int| 0 <= t < s.len() ==> !is_nan_bits(#[trigger] s[t])
}

/// No earlier listed position holds a strictly greater fitness.
pub open spec fn sorted_by_fits(fits: Seq<u32>, r: Seq<usize>) -> bool {
    forall|a: int, b: int|
        #![trigger r[a], r[b]]
        0 <= a < b < r.len() ==> !gt_bits(fits[r[a] as int], fits[r[b] as int])
}

/// Ascending rank order of the fitness patterns: the result lists every
/// position of `fits` exactly once; with NaN absent no earlier position
/// holds a strictly greater fitness, and an unordered pair counts as a
/// tie, the fallback a partial comparison demands.  Ties keep first-seen
/// order, so the order is deterministic.
pub fn sort_indices_by_fitness(fits: &Vec<u32>) -> (r: Vec<usize>)
    ensures
        r@.len() == fits@.len(),
        forall|t: int| 0 <= t < r@.len() ==> (#[trigger] r@[t]) < fits@.len(),
        forall|v: usize| v < fits@.len() ==> r@.contains(v),
        no_nans(fits@) ==> sorted_by_fits(fits@, r@),
{
    let n = fits.len();
    let mut sorted: Vec<usize> = Vec::new();
    let mut i: usize = 0;
    while i < n
        invariant
            n == fits@.len(),
            i <= n,
            sorted@.len() == i,
            forall|t: int| 0 <= t < i ==> (#[trigger] sorted@[t]) < n,
            forall|v: usize| v < i ==> sorted@.contains(v),
            no_nans(fits@) ==> sorted_by_fits(fits@, sorted@),
        decreases n - i,
    {
        let slen = sorted.len();
        let mut p: usize = 0;
        while p < slen && !f32_gt(fits[sorted[p]], fits[i])
            invariant
                n == fits@.len(),
                i < n,
                slen == sorted@.len(),
                forall|t: int| 0 <= t < slen ==> (#[trigger] sorted@[t]) < n,
                p <= slen,
                forall|a: int|
                    0 <= a < p ==> !gt_bits(fits@[(#[trigger] sorted@[a]) as int], fits@[i as int]),
            decreases slen - p,
        {
            p = p + 1;
        }
        let ghost old_sorted = sorted@;
        sorted.insert(p, i);
        proof {
            assert(sorted@ == old_sorted.insert(p as int, i as usize));
            assert forall|v: usize| v < i + 1 implies sorted@.contains(v) by {
                if v == i {
                    assert(sorted@[p as int] == i as usize);
                } else {
                    assert(old_sorted.contains(v));
                    let t = choose|t: int| 0 <= t < old_sorted.len() && old_sorted[t] == v;
                    if t < p {
                        assert(sorted@[t] == v);
                    } else {
                        assert(sorted@[t + 1] == v);
                    }
                }
            };
            if no_nans(fits@) {
                let x = fits@[i as int];
                assert forall|a: int, b: int|
                    0 <= a < b < sorted@.len() implies !gt_bits(
                    fits@[(sorted@[a]) as int],
                    fits@[(sorted@[b]) as int],
                ) by {
                    let fa = fits@[(sorted@[a]) as int];
                    let fb = fits@[(sorted@[b]) as int];
                    if b < p {
                        assert(sorted@[a] == old_sorted[a] && sorted@[b] == old_sorted[b]);
                    } else if a < p && b == p {
                        assert(sorted@[b] == i as usize);
                        assert(!gt_bits(fits@[old_sorted[a] as int], x));
                    } else if a < p && b > p {
                        assert(sorted@[a] == old_sorted[a] && sorted@[b] == old_sorted[b - 1]);
                    } else if a == p {
                        assert(sorted@[a] == i as usize && sorted@[b] == old_sorted[b - 1]);
                        assert(p < old_sorted.len());
                        let fp = fits@[old_sorted[p as int] as int];
                        assert(gt_bits(fp, x));
                        assert(lt_bits(x, fp));
                        if b - 1 == p {
                            lemma_lt_asym(x, fp);
                        } else {
                            let fbb = fits@[old_sorted[b - 1] as int];
                            assert(!gt_bits(fp, fbb));
                            assert(!lt_bits(fbb, fp));
                            lemma_total(fp, fbb);
                            lemma_lt_le_trans(x, fp, fbb);
                            lemma_lt_asym(x, fbb);
                        }
                    } else {
                        assert(a > p);
                        assert(sorted@[a] == old_sorted[a - 1] && sorted@[b] == old_sorted[b - 1]);
                    }
                };
            }
        }
        i = i + 1;
    }
    sorted
}

impl SelectionMethod for RankSelection {
    /// Sorts the population ascending by fitness, ranks the sorted order
    /// from one upward, and draws one member with weight equal to its
    /// rank, so a higher fitness is favoured but none is excluded.
    fn select<'a, I: Individual>(&self, rng: &mut StdRng, population: &'a Vec<I>) -> (r: &'a I) {
        let n = population.len();
        let mut fits: Vec<u32> = Vec::new();
        let mut t: usize = 0;
        while t < n
            invariant
                n == population@.len(),
                t <= n,
                fits@.len() == t,
            decreases n - t,
        {
            let f = population[t].fitness();
            fits.push(f);
            t = t + 1;
        }
        let sorted = sort_indices_by_fitness(&fits);
        let mut ranked: Vec<(usize, usize)> = Vec::new();
        let mut u: usize = 0;
        while u < n
            invariant
                n == sorted@.len(),
                n == population@.len(),
                n < 0x1_0000,
                u <= n,
                ranked@.len() == u,
                forall|t: int| 0 <= t < n ==> (#[trigger] sorted@[t]) < n,
                forall|w: int| 0 <= w < u ==> (#[trigger] ranked@[w]).0 == sorted@[w],
                forall|w: int| 0 <= w < u ==> (#[trigger] ranked@[w]).1 == w + 1,
                2 * weight_sum(ranked@) == u * (u + 1),
            decreases n - u,
        {
            let ghost old_ranked = ranked@;
            ranked.push((sorted[u], u + 1));
            proof {
                assert(ranked@.drop_last() =~= old_ranked);
                assert(ranked@.last() == (sorted@[u as int], (u + 1) as usize));
                assert(weight_sum(ranked@) == weight_sum(old_ranked) + (u + 1));
                assert(u * (u + 1) + 2 * (u + 1) == (u + 1) * (u + 2)) by (nonlinear_arith);
            }
            u = u + 1;
        }
        proof {
            assert(weight_sum(ranked@) <= usize::MAX as int) by (nonlinear_arith)
                requires
                    2 * weight_sum(ranked@) == n * (n + 1),
                    0 < n < 0x1_0000,
            ;
            assert((ranked@[0]).1 > 0);
            assert(has_positive_weight(ranked@));
        }
        let pick = choose_weighted_pair(rng, &ranked);
        proof {
            let j = choose|j: int|
                0 <= j < ranked@.len() && pick == (ranked@[j]).0 && (ranked@[j]).1 > 0;
            assert(pick == sorted@[j]);
            assert(pick < n);
        }
        &population[pick]
    }
}

impl CrossoverMethod for UniformCrossover {
    /// One even-odds coin per gene decides which parent the gene is copied
    /// from, consuming the coins left to right.
    fn crossover(&self, rng: &mut StdRng, parent_a: &Chromosome, parent_b: &Chromosome) -> (r:
        Chromosome) {
        let n = parent_a.len();
        let mut genes: Vec<u32> = Vec::new();
        let mut t: usize = 0;
        while t < n
            invariant
                n == parent_a@.len(),
                n == parent_b@.len(),
                t <= n,
                genes@.len() == t,
                forall|w: int|
                    0 <= w < t ==> #[trigger] genes@[w] == parent_a@[w] || genes@[w]
                        == parent_b@[w],
            decreases n - t,
        {
            let g = if coin(rng) {
                parent_a.get(t)
            } else {
                parent_b.get(t)
            };
            genes.push(g);
            t = t + 1;
        }
        Chromosome::from_genes(genes)
    }
}

/// The gene received one signed bounded perturbation: plus or minus the
/// coefficient, scaled by a unit draw, added onto the gene.
pub open spec fn gene_perturbed(g: u32, coeff: u32, r: u32) -> bool {
    exists|s: u32, u: u32|
        (s == ONE_BITS || s == NEG_ONE_BITS) && r == add_bits(
            g,
            #[trigger] mul_bits(mul_bits(s, coeff), u),
        )
}

impl GaussianMutation {
    /// Wraps the two parameters; the chance must encode a probability.
    pub fn new(chance: u32, coeff: u32) -> (r: Self)
        requires
            prob_bits(chance),
        ensures
            r.chance == chance,
            r.coeff == coeff,
            r.wf(),
    {
        GaussianMutation { chance, coeff }
    }

    /// For every gene, in order: one sign coin, then one chance draw;
    /// where the chance draw succeeds the gene moves by
    /// `sign * coeff * u` for a fresh unit draw `u`.  A zero chance leaves
    /// the genome untouched; a full chance perturbs every gene.
    pub fn mutate(&self, rng: &mut StdRng, child: &mut Chromosome)
        requires
            prob_bits(self.chance),
        ensures
            final(child)@.len() == old(child)@.len(),
            forall|t: int|
                0 <= t < old(child)@.len() ==> final(child)@[t] == old(child)@[t]
                    || gene_perturbed(old(child)@[t], self.coeff, #[trigger] final(child)@[t]),
            is_zero_bits(self.chance) ==> final(child)@ == old(child)@,
            self.chance == ONE_BITS ==> forall|t: int|
                0 <= t < old(child)@.len() ==> gene_perturbed(
                    old(child)@[t],
                    self.coeff,
                    #[trigger] final(child)@[t],
                ),
    {
        let n = child.len();
        let mut out: Vec<u32> = Vec::new();
        let mut t: usize = 0;
        while t < n
            invariant
                n == old(child)@.len(),
                child@ == old(child)@,
                prob_bits(self.chance),
                t <= n,
                out@.len() == t,
                forall|w: int|
                    0 <= w < t ==> out@[w] == old(child)@[w] || gene_perturbed(
                        old(child)@[w],
                        self.coeff,
                        #[trigger] out@[w],
                    ),
                is_zero_bits(self.chance) ==> out@ =~= old(child)@.subrange(0, t as int),
                self.chance == ONE_BITS ==> forall|w: int|
                    0 <= w < t ==> gene_perturbed(
                        old(child)@[w],
                        self.coeff,
                        #[trigger] out@[w],
                    ),
            decreases n - t,
        {
            let g = child.get(t);
            let s: u32 = if coin(rng) {
                NEG_ONE_BITS
            } else {
                ONE_BITS
            };
            let hit = bernoulli(rng, self.chance);
            if hit {
                let u = draw_unit(rng);
                let d = f32_mul(f32_mul(s, self.coeff), u);
                let g2 = f32_add(g, d);
                out.push(g2);
                proof {
                    assert(gene_perturbed(old(child)@[t as int], self.coeff, g2));
                }
            } else {
                out.push(g);
            }
            t = t + 1;
            proof {
                if is_zero_bits(self.chance) {
                    assert(out@ =~= old(child)@.subrange(0, t as int));
                }
            }
        }
        proof {
            if is_zero_bits(self.chance) {
                assert(old(child)@.subrange(0, n as int) =~= old(child)@);
            }
        }
        *child = Chromosome::from_genes(out);
    }
}

impl MutationMethod for GaussianMutation {
    /// The chance parameter encodes a probability.
    open spec fn wf(&self) -> bool {
        prob_bits(self.chance)
    }

    /// A rewritten gene received the signed bounded perturbation.
    open spec fn gene_rel(&self, g: u32, r: u32) -> bool {
        gene_perturbed(g, self.coeff, r)
    }

    fn mutate(&self, rng: &mut StdRng, child: &mut Chromosome) {
        GaussianMutation::mutate(self, rng, child);
    }
}

/// One gene descends from the two parent genes under the given
/// mutation: it is one of them, kept, or one of them rewritten as the
/// mutation's gene relation admits.
pub open spec fn child_gene_of<M: MutationMethod>(pa: u32, pb: u32, m: M, g: u32) -> bool {
    ||| g == pa
    ||| g == pb
    ||| m.gene_rel(pa, g)
    ||| m.gene_rel(pb, g)
}

/// The genome descends from the two parent genomes under the given
/// mutation: it has the first parent's length, and each gene descends
/// from the parents' genes at its position.
pub open spec fn child_of<M: MutationMethod>(pa: Seq<u32>, pb: Seq<u32>, m: M, out: Seq<u32>) -> bool {
    &&& out.len() == pa.len()
    &&& forall|t: int| 0 <= t < out.len() ==> child_gene_of(pa[t], pb[t], m, #[trigger] out[t])
}

/// The genome descends from two members of the population under the
/// given mutation.
pub open spec fn descends_from<I: Individual, M: MutationMethod>(
    pop: Seq<I>,
    m: M,
    g: Seq<u32>,
) -> bool {
    exists|pj: int, qj: int|
        0 <= pj < pop.len() && 0 <= qj < pop.len() && child_of(
            (#[trigger] pop[pj]).chromosome_spec(),
            (#[trigger] pop[qj]).chromosome_spec(),
            m,
            g,
        )
}

/// Every member's genome has the same length as the first member's.
pub open spec fn uniform_genomes<I: Individual>(pop: Seq<I>) -> bool {
    forall|j: int|
        0 <= j < pop.len() ==> (#[trigger] pop[j]).chromosome_spec().len()
            == pop[0].chromosome_spec().len()
}

/// One selection, one crossover and one mutation strategy, combined into
/// a generational replacement over any `Individual`.
pub struct GeneticAlgorithm<S, C, M> {
    selection_method: S,
    crossover_method: C,
    mutation_method: M,
}

impl<S: SelectionMethod, C: CrossoverMethod, M: MutationMethod> GeneticAlgorithm<S, C, M> {
    /// Wraps the three strategies: the orchestrator holds exactly the
    /// given selection, crossover and mutation values, and `evolve`
    /// dispatches to no others.
    pub fn new(selection_method: S, crossover_method: C, mutation_method: M) -> (r: Self)
        ensures
            r.selection_spec() == selection_method,
            r.crossover_spec() == crossover_method,
            r.mutation_spec() == mutation_method,
    {
        GeneticAlgorithm { selection_method, crossover_method, mutation_method }
    }

    /// The installed selection strategy.
    pub closed spec fn selection_spec(&self) -> S {
        self.selection_method
    }

    /// The installed crossover strategy.
    pub closed spec fn crossover_spec(&self) -> C {
        self.crossover_method
    }

    /// The installed mutation operator.
    pub closed spec fn mutation_spec(&self) -> M {
        self.mutation_method
    }

    /// Replaces a non-empty population by one of the same size: each new
    /// member carries a genome of the shared parent length that descends
    /// from two selected members' genomes — crossed gene by gene, then
    /// mutated as the installed operator admits.
    pub fn evolve<I: Individual>(&self, rng: &mut StdRng, population: &Vec<I>) -> (r: Vec<I>)
        requires
            population@.len() > 0,
            population@.len() < 0x1_0000,
            uniform_genomes(population@),
            self.mutation_spec().wf(),
        ensures
            r@.len() == population@.len(),
            forall|j: int|
                0 <= j < r@.len() ==> (#[trigger] r@[j]).chromosome_spec().len()
                    == population@[0].chromosome_spec().len(),
            forall|j: int|
                0 <= j < r@.len() ==> descends_from(
                    population@,
                    self.mutation_spec(),
                    (#[trigger] r@[j]).chromosome_spec(),
                ),
    {
        let n = population.len();
        let mut out: Vec<I> = Vec::new();
        let ghost mut lineage: Seq<(int, int)> = Seq::empty();
        let mut t: usize = 0;
        while t < n
            invariant
                n == population@.len(),
                0 < n < 0x1_0000,
                uniform_genomes(population@),
                self.mutation_spec().wf(),
                t <= n,
                out@.len() == t,
                lineage.len() == t,
                forall|j: int|
                    0 <= j < t ==> (#[trigger] out@[j]).chromosome_spec().len()
                        == population@[0].chromosome_spec().len(),
                forall|j: int|
                    0 <= j < t ==> 0 <= (#[trigger] lineage[j]).0 < population@.len() && 0
                        <= lineage[j].1 < population@.len() && child_of(
                        population@[lineage[j].0].chromosome_spec(),
                        population@[lineage[j].1].chromosome_spec(),
                        self.mutation_spec(),
                        out@[j].chromosome_spec(),
                    ),
            decreases n - t,
        {
            let ghost old_out = out@;
            let ghost old_lineage = lineage;
            let sel_a = self.selection_method.select(rng, population);
            let ghost pj = choose|j: int|
                0 <= j < population@.len() && *sel_a == population@[j];
            let parent_a = sel_a.chromosome();
            let sel_b = self.selection_method.select(rng, population);
            let ghost qj = choose|j: int|
                0 <= j < population@.len() && *sel_b == population@[j];
            let parent_b = sel_b.chromosome();
            let mut child = self.crossover_method.crossover(rng, parent_a, parent_b);
            let ghost crossed = child@;
            self.mutation_method.mutate(rng, &mut child);
            proof {
                let pa = population@[pj].chromosome_spec();
                let pb = population@[qj].chromosome_spec();
                assert(parent_a@ == pa && parent_b@ == pb);
                assert forall|w: int|
                    0 <= w < child@.len() implies child_gene_of(
                    pa[w],
                    pb[w],
                    self.mutation_spec(),
                    #[trigger] child@[w],
                ) by {
                    assert(crossed[w] == pa[w] || crossed[w] == pb[w]);
                    assert(child@[w] == crossed[w] || self.mutation_spec().gene_rel(
                        crossed[w],
                        child@[w],
                    ));
                }
                assert(child_of(pa, pb, self.mutation_spec(), child@));
            }
            let made = I::create(child);
            out.push(made);
            proof {
                lineage = lineage.push((pj, qj));
                assert forall|j: int|
                    0 <= j < t + 1 implies 0 <= (#[trigger] lineage[j]).0 < population@.len() && 0
                        <= lineage[j].1 < population@.len() && child_of(
                    population@[lineage[j].0].chromosome_spec(),
                    population@[lineage[j].1].chromosome_spec(),
                    self.mutation_spec(),
                    out@[j].chromosome_spec(),
                ) by {
                    if j < t {
                        assert(out@[j] == old_out[j]);
                        assert(lineage[j] == old_lineage[j]);
                    } else {
                        assert(out@[j] == made);
                        assert(lineage[j] == (pj, qj));
                    }
                }
            }
            t = t + 1;
        }
        proof {
            assert forall|j: int|
                0 <= j < out@.len() implies descends_from(
                population@,
                self.mutation_spec(),
                (#[trigger] out@[j]).chromosome_spec(),
            ) by {
                let pj = lineage[j].0;
                let qj = lineage[j].1;
                assert(0 <= pj < population@.len() && 0 <= qj < population@.len() && child_of(
                    population@[pj].chromosome_spec(),
                    population@[qj].chromosome_spec(),
                    self.mutation_spec(),
                    out@[j].chromosome_spec(),
                ));
            }
        }
        out
    }
}

} // verus!
