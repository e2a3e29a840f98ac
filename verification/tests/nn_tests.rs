use neuroevo::chromosome::Chromosome;
use neuroevo::network::{DecodeError, LayerTopology, Network, Neuron};
use rand::rngs::StdRng;
use rand::SeedableRng;

fn relative_eq(a: f32, b: f32) -> bool {
    let diff = (a - b).abs();
    diff <= f32::EPSILON || diff <= f32::EPSILON * a.abs().max(b.abs())
}

#[test]
fn random() {
    let mut rng = StdRng::seed_from_u64(42);
    let neuron = Neuron::random(&mut rng, 4);

    assert!(relative_eq(f32::from_bits(neuron.bias), -0.7331805));

    let weights: Vec<f32> = neuron.weights.iter().map(|w| f32::from_bits(*w)).collect();
    let expected = [0.053114653f32, -0.5025234, 0.08545041, 0.7368531];
    assert_eq!(weights.len(), expected.len());
    for (w, e) in weights.iter().zip(expected.iter()) {
        assert!(relative_eq(*w, *e));
    }
}

#[test]
fn propagate() {
    let neuron = Neuron::new(0.5f32.to_bits(), vec![(-0.3f32).to_bits(), 0.8f32.to_bits()]);

    // (-0.3 * -10.0) + (0.8 * -10.0) + 0.5 is negative, so the rectifier
    // floors the response to zero.
    let low = neuron.propagate(&vec![(-10.0f32).to_bits(), (-10.0f32).to_bits()]);
    assert!(relative_eq(f32::from_bits(low), 0.0));

    // (-0.3 * 0.5) + (0.8 * 1.0) + 0.5 = 1.15
    let high = neuron.propagate(&vec![0.5f32.to_bits(), 1.0f32.to_bits()]);
    assert!(relative_eq(f32::from_bits(high), 1.15));
}

#[test]
fn weights_round_trip() {
    let mut rng = StdRng::seed_from_u64(7);
    let topology = vec![
        LayerTopology { neurons: 3 },
        LayerTopology { neurons: 5 },
        LayerTopology { neurons: 2 },
    ];
    let network = Network::random(&mut rng, &topology);

    let genome = network.weights();
    assert_eq!(genome.len(), 5 * 4 + 2 * 6);

    let rebuilt = Network::from_weights(&topology, &Chromosome::from_genes(genome.clone()))
        .unwrap();

    assert_eq!(rebuilt.weights(), genome);
    assert_eq!(rebuilt.layers.len(), network.layers.len());
    for (a, b) in rebuilt.layers.iter().zip(network.layers.iter()) {
        assert_eq!(a.neurons.len(), b.neurons.len());
        for (x, y) in a.neurons.iter().zip(b.neurons.iter()) {
            assert_eq!(x.bias, y.bias);
            assert_eq!(x.weights, y.weights);
        }
    }
}

#[test]
fn from_weights_rejects_bad_lengths() {
    let topology = vec![LayerTopology { neurons: 2 }, LayerTopology { neurons: 1 }];
    // Needs exactly 1 bias + 2 weights.
    let short = Chromosome::from_genes(vec![0, 0]);
    let long = Chromosome::from_genes(vec![0, 0, 0, 0]);
    let exact = Chromosome::from_genes(vec![
        0.5f32.to_bits(),
        (-0.3f32).to_bits(),
        0.8f32.to_bits(),
    ]);

    assert_eq!(
        Network::from_weights(&topology, &short).unwrap_err(),
        DecodeError::MissingGenes
    );
    assert_eq!(
        Network::from_weights(&topology, &long).unwrap_err(),
        DecodeError::ExtraGenes
    );
    assert!(Network::from_weights(&topology, &exact).is_ok());
}

#[test]
fn zero_neuron_rectifies_to_zero() {
    let neuron = Neuron::new(0.0f32.to_bits(), vec![0u32, 0u32, 0u32]);
    let inputs = vec![5.25f32.to_bits(), (-3.5f32).to_bits(), 1000.0f32.to_bits()];
    assert_eq!(neuron.propagate(&inputs), 0.0f32.to_bits());

    // Even an infinite input is floored: the poisoned sum is unordered and
    // the rectifier keeps the zero side.
    let inputs = vec![f32::INFINITY.to_bits(), f32::NAN.to_bits(), 0u32];
    assert_eq!(neuron.propagate(&inputs), 0.0f32.to_bits());
}
