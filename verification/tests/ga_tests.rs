use neuroevo::chromosome::Chromosome;
use neuroevo::ga::{
    CrossoverMethod, GaussianMutation, GeneticAlgorithm, Individual, RankSelection,
    SelectionMethod, UniformCrossover,
};
use rand::rngs::StdRng;
use rand::SeedableRng;
use std::collections::BTreeMap;

#[derive(Clone, Debug)]
enum TestIndividual {
    WithChromosome { chromosome: Chromosome },
    WithFitness { fitness: f32 },
}

impl TestIndividual {
    fn new(fitness: f32) -> Self {
        Self::WithFitness { fitness }
    }
}

impl Individual for TestIndividual {
    fn create(chromosome: Chromosome) -> Self {
        Self::WithChromosome { chromosome }
    }

    fn chromosome(&self) -> &Chromosome {
        match self {
            Self::WithChromosome { chromosome } => chromosome,
            Self::WithFitness { .. } => {
                panic!("not supported for TestIndividual::WithFitness")
            }
        }
    }

    fn fitness(&self) -> u32 {
        match self {
            Self::WithChromosome { chromosome } => chromosome
                .genes()
                .iter()
                .map(|b| f32::from_bits(*b))
                .sum::<f32>()
                .to_bits(),
            Self::WithFitness { fitness } => fitness.to_bits(),
        }
    }
}

fn chromosome_of(genes: &[f32]) -> Chromosome {
    Chromosome::from_genes(genes.iter().map(|g| g.to_bits()).collect())
}

fn individual(genes: &[f32]) -> TestIndividual {
    TestIndividual::create(chromosome_of(genes))
}

fn floats_of(c: &Chromosome) -> Vec<f32> {
    c.genes().iter().map(|b| f32::from_bits(*b)).collect()
}

/// Approximate equality for the regression values: equal within one
/// epsilon, absolutely or relative to the larger magnitude.
fn relative_eq(a: f32, b: f32) -> bool {
    let diff = (a - b).abs();
    diff <= f32::EPSILON || diff <= f32::EPSILON * a.abs().max(b.abs())
}

fn relative_eq_slices(a: &[f32], b: &[f32]) -> bool {
    a.len() == b.len() && a.iter().zip(b.iter()).all(|(x, y)| relative_eq(*x, *y))
}

#[test]
fn genetic_algorithm() {
    let mut rng = StdRng::seed_from_u64(42);

    let ga = GeneticAlgorithm::new(
        RankSelection,
        UniformCrossover,
        GaussianMutation::new(0.5f32.to_bits(), 0.5f32.to_bits()),
    );

    let mut population = vec![
        individual(&[0.0, 0.0, 0.0]),
        individual(&[1.0, 1.0, 1.0]),
        individual(&[1.0, 2.0, 1.0]),
        individual(&[1.0, 2.0, 4.0]),
    ];

    for _ in 0..10 {
        population = ga.evolve(&mut rng, &population);
    }

    let expected_population = vec![
        individual(&[1.9093989, 2.5592773, 4.7587504]),
        individual(&[1.7548623, 2.5357468, 4.528109]),
        individual(&[1.498456, 1.7593423, 4.110021]),
        individual(&[2.0690544, 2.5357468, 4.528109]),
    ];

    assert_eq!(population.len(), expected_population.len());
    for (got, want) in population.iter().zip(expected_population.iter()) {
        assert!(relative_eq_slices(
            &floats_of(got.chromosome()),
            &floats_of(want.chromosome()),
        ));
    }
}

#[test]
fn ranked_selection() {
    let mut rng = StdRng::seed_from_u64(42);

    let population = vec![
        TestIndividual::new(2.0),
        TestIndividual::new(1.0),
        TestIndividual::new(4.0),
        TestIndividual::new(3.0),
    ];

    let mut actual_histogram = BTreeMap::new();

    for _ in 0..50 {
        let fitness = f32::from_bits(RankSelection.select(&mut rng, &population).fitness()) as i32;

        *actual_histogram.entry(fitness).or_insert(0) += 1;
    }

    let expected_histogram = BTreeMap::from_iter([(1, 6), (2, 8), (3, 17), (4, 19)]);

    assert_eq!(actual_histogram, expected_histogram);
}

#[test]
fn uniform_crossover() {
    let mut rng = StdRng::seed_from_u64(42);

    let parent_a = chromosome_of(&(1..=100).map(|n| n as f32).collect::<Vec<f32>>());
    let parent_b = chromosome_of(&(1..=100).map(|n| -n as f32).collect::<Vec<f32>>());

    let child = UniformCrossover.crossover(&mut rng, &parent_a, &parent_b);

    let child_genes = floats_of(&child);
    let a_genes = floats_of(&parent_a);
    let b_genes = floats_of(&parent_b);

    let diff_a = child_genes.iter().zip(a_genes).filter(|(c, p)| **c != *p).count();
    let diff_b = child_genes.iter().zip(b_genes).filter(|(c, p)| **c != *p).count();

    assert_eq!(diff_a, 48);
    assert_eq!(diff_b, 52);
}

#[test]
fn crossover_copies_whole_genes() {
    let mut rng = StdRng::seed_from_u64(7);
    let parent_a = chromosome_of(&(1..=50).map(|n| n as f32 * 0.25).collect::<Vec<f32>>());
    let parent_b = chromosome_of(&(1..=50).map(|n| -(n as f32) * 0.5).collect::<Vec<f32>>());

    let child = UniformCrossover.crossover(&mut rng, &parent_a, &parent_b);

    assert_eq!(child.len(), 50);
    for i in 0..50 {
        let c = child.get(i);
        assert!(c == parent_a.get(i) || c == parent_b.get(i));
    }
}

fn mutated(chance: f32, coeff: f32) -> Vec<f32> {
    let mut rng = StdRng::seed_from_u64(42);
    let mut child = chromosome_of(&[1.0, 2.0, 3.0, 4.0, 5.0]);

    GaussianMutation::new(chance.to_bits(), coeff.to_bits()).mutate(&mut rng, &mut child);

    floats_of(&child)
}

#[test]
fn lib_does_not_change_the_original_chromosome() {
    // Zero chance, zero coefficient.
    let expected = vec![1.0, 2.0, 3.0, 4.0, 5.0];
    assert!(relative_eq_slices(&mutated(0.0, 0.0), &expected));
    // Zero chance, non-zero coefficient.
    assert!(relative_eq_slices(&mutated(0.0, 0.5), &expected));
    // Fifty-fifty chance, zero coefficient.
    assert!(relative_eq_slices(&mutated(0.5, 0.0), &expected));
    // Full chance, zero coefficient.
    assert!(relative_eq_slices(&mutated(1.0, 0.0), &expected));
}

#[test]
fn slightly_changes_the_original_chromosome() {
    let actual = mutated(0.5, 0.5);
    let expected = vec![1.0, 2.0, 3.0, 4.0, 5.0];

    assert_ne!(actual, expected);
}

#[test]
fn entirely_changes_the_original_chromosome() {
    let actual = mutated(1.0, 0.5);
    let expected = vec![1.0, 2.0, 3.0, 4.0, 5.0];

    for (a, e) in actual.iter().zip(expected.iter()) {
        assert_ne!(a, e);
    }
}
