//! The feed-forward neural network.
//!
//! A network is an ordered sequence of fully-connected layers of neurons;
//! each neuron holds one bias and one weight per input.  All weights are
//! carried as 32-bit float patterns.  Propagation applies, layer by layer,
//! the rectified weighted sum `max(0, bias + sum(input_i * weight_i))`,
//! accumulated left to right in hardware evaluation order.
//!
//! The genome bridge is the safety-critical piece: `weights` flattens the
//! network by emitting, for every layer in order and every neuron within a
//! layer in order, first the bias and then the weights in order, and
//! `from_weights` consumes a genome in the identical traversal order,
//! rejecting both missing and leftover genes.

use vstd::prelude::*;
use rand::rngs::StdRng;
use crate::arith::{add_bits, mul_bits, f32_add, f32_mul};
use crate::float_bits::{relu_bits, f32_relu, is_zero_bits, is_zero_or_nan_bits, mag_bits, POS_ZERO, ONE_BITS};
use crate::chromosome::Chromosome;
use crate::rng::draw_pm1;

verus! {

/// Why a genome was rejected while rebuilding a network: it ran out of
/// genes before the topology was filled, or genes were left over after it.
#[derive(Clone, Copy, Debug, PartialEq, Eq, Structural)]
pub enum DecodeError {
    MissingGenes,
    ExtraGenes,
}

/// The neuron count at one layer boundary.
#[derive(Clone, Copy, Debug, PartialEq, Eq, Structural)]
pub struct LayerTopology {
    pub neurons: usize,
}

/// One bias and one weight per input, as float patterns.
#[derive(Clone, Debug)]
pub struct Neuron {
    pub bias: u32,
    pub weights: Vec<u32>,
}

/// An ordered sequence of neurons sharing one input width.
#[derive(Clone, Debug)]
pub struct Layer {
    pub neurons: Vec<Neuron>,
}

/// An ordered sequence of layers.
#[derive(Clone, Debug)]
pub struct Network {
    pub layers: Vec<Layer>,
}

/// The weighted sum of the first `k` input/weight pairs, accumulated left
/// to right from positive zero.
pub open spec fn wsum_bits(ws: Seq<u32>, xs: Seq<u32>, k: int) -> u32
    decreases k,
{
    if k <= 0 {
        POS_ZERO
    } else {
        add_bits(wsum_bits(ws, xs, k - 1), mul_bits(xs[k - 1], ws[k - 1]))
    }
}

/// One neuron's response: the rectified biased weighted sum.
pub open spec fn neuron_out_bits(n: Neuron, xs: Seq<u32>) -> u32 {
    relu_bits(add_bits(wsum_bits(n.weights@, xs, n.weights@.len() as int), n.bias))
}

/// Every weight and the bias encode a zero.
pub open spec fn zero_neuron(n: Neuron) -> bool {
    &&& is_zero_bits(n.bias)
    &&& forall|i: int| 0 <= i < n.weights@.len() ==> is_zero_bits(#[trigger] n.weights@[i])
}

/// One layer's response: each neuron applied to the same inputs, in order.
pub open spec fn layer_out_bits(l: Layer, xs: Seq<u32>) -> Seq<u32> {
    Seq::new(l.neurons@.len(), |j: int| neuron_out_bits(l.neurons@[j], xs))
}

/// The network's response: the layers applied in order.
pub open spec fn net_out_bits(ls: Seq<Layer>, xs: Seq<u32>) -> Seq<u32>
    decreases ls.len(),
{
    if ls.len() == 0 {
        xs
    } else {
        net_out_bits(ls.drop_first(), layer_out_bits(ls[0], xs))
    }
}

/// Every neuron of the layer declares the given input width.
pub open spec fn layer_wf(l: Layer, in_width: nat) -> bool {
    forall|j: int| 0 <= j < l.neurons@.len() ==> (#[trigger] l.neurons@[j]).weights@.len()
        == in_width
}

/// Each layer's input width equals the previous layer's neuron count,
/// starting from the given outer input width.
pub open spec fn chain_wf(ls: Seq<Layer>, in_width: nat) -> bool
    decreases ls.len(),
{
    ls.len() == 0 || (layer_wf(ls[0], in_width) && chain_wf(
        ls.drop_first(),
        ls[0].neurons@.len(),
    ))
}

/// The layers have the shape the topology declares: one layer per adjacent
/// boundary pair, with the earlier entry as input width and the later as
/// neuron count.
pub open spec fn matches_topology(ls: Seq<Layer>, topo: Seq<LayerTopology>) -> bool {
    &&& topo.len() == ls.len() + 1
    &&& forall|i: int|
        0 <= i < ls.len() ==> {
            &&& (#[trigger] ls[i]).neurons@.len() == topo[i + 1].neurons
            &&& layer_wf(ls[i], topo[i].neurons as nat)
        }
}

/// One neuron's genome slice: the bias, then the weights in order.
pub open spec fn neuron_genome(n: Neuron) -> Seq<u32> {
    seq![n.bias] + n.weights@
}

/// The genome of the first `k` neurons, in order.
pub open spec fn neurons_genome(ns: Seq<Neuron>, k: int) -> Seq<u32>
    decreases k,
{
    if k <= 0 {
        Seq::empty()
    } else {
        neurons_genome(ns, k - 1) + neuron_genome(ns[k - 1])
    }
}

/// One layer's genome slice.
pub open spec fn layer_genome(l: Layer) -> Seq<u32> {
    neurons_genome(l.neurons@, l.neurons@.len() as int)
}

/// The genome of the first `k` layers, in order.
pub open spec fn layers_genome(ls: Seq<Layer>, k: int) -> Seq<u32>
    decreases k,
{
    if k <= 0 {
        Seq::empty()
    } else {
        layers_genome(ls, k - 1) + layer_genome(ls[k - 1])
    }
}

/// The network's whole genome.
pub open spec fn net_genome(net: Network) -> Seq<u32> {
    layers_genome(net.layers@, net.layers@.len() as int)
}

/// The genome length the first `k` topology entries call for.
pub open spec fn genome_len_for(topo: Seq<LayerTopology>, k: int) -> int
    decreases k,
{
    if k <= 1 {
        0
    } else {
        genome_len_for(topo, k - 1) + topo[k - 1].neurons * (1 + topo[k - 2].neurons)
    }
}

/// The genome length the whole topology calls for.
pub open spec fn genome_len(topo: Seq<LayerTopology>) -> int {
    genome_len_for(topo, topo.len() as int)
}

/// Every weight and the bias of every neuron has magnitude at most one.
pub open spec fn neuron_bounded(n: Neuron) -> bool {
    &&& mag_bits(n.bias) <= ONE_BITS
    &&& forall|k: int| 0 <= k < n.weights@.len() ==> mag_bits(#[trigger] n.weights@[k])
        <= ONE_BITS
}

/// Every neuron of every layer is bounded.
pub open spec fn net_bounded(ls: Seq<Layer>) -> bool {
    forall|i: int, j: int|
        0 <= i < ls.len() && 0 <= j < ls[i].neurons@.len() ==> neuron_bounded(
            #[trigger] ls[i].neurons@[j],
        )
}

/// The genome length a topology calls for never shrinks as more boundary
/// pairs are taken.
pub proof fn lemma_genome_len_mono(topo: Seq<LayerTopology>, a: int, b: int)
    requires
        a <= b,
    ensures
        genome_len_for(topo, a) <= genome_len_for(topo, b),
    decreases b - a,
{
    if a < b && b > 1 {
        lemma_genome_len_mono(topo, a, b - 1);
        assert(topo[b - 1].neurons * (1 + topo[b - 2].neurons) >= 0) by (nonlinear_arith);
    }
}

/// The first `k` neurons' genome is untouched by appending a neuron.
proof fn lemma_neurons_genome_push(ns: Seq<Neuron>, x: Neuron, k: int)
    requires
        0 <= k <= ns.len(),
    ensures
        neurons_genome(ns.push(x), k) == neurons_genome(ns, k),
    decreases k,
{
    if k > 0 {
        lemma_neurons_genome_push(ns, x, k - 1);
        assert(ns.push(x)[k - 1] == ns[k - 1]);
    }
}

/// The first `k` layers' genome is untouched by appending a layer.
proof fn lemma_layers_genome_push(ls: Seq<Layer>, x: Layer, k: int)
    requires
        0 <= k <= ls.len(),
    ensures
        layers_genome(ls.push(x), k) == layers_genome(ls, k),
    decreases k,
{
    if k > 0 {
        lemma_layers_genome_push(ls, x, k - 1);
        assert(ls.push(x)[k - 1] == ls[k - 1]);
    }
}

/// A network of a topology's shape is a well-formed chain from the first
/// boundary's width.
pub proof fn lemma_matches_chain(ls: Seq<Layer>, topo: Seq<LayerTopology>)
    requires
        matches_topology(ls, topo),
    ensures
        chain_wf(ls, topo[0].neurons as nat),
    decreases ls.len(),
{
    if ls.len() > 0 {
        let tl = ls.drop_first();
        let tt = topo.drop_first();
        assert forall|i: int| 0 <= i < tl.len() implies {
            &&& (#[trigger] tl[i]).neurons@.len() == tt[i + 1].neurons
            &&& layer_wf(tl[i], tt[i].neurons as nat)
        } by {
            assert(tl[i] == ls[i + 1]);
            assert(tt[i + 1] == topo[i + 2]);
            assert(tt[i] == topo[i + 1]);
        }
        assert(matches_topology(tl, tt));
        lemma_matches_chain(tl, tt);
        assert(tt[0] == topo[1]);
        assert(ls[0].neurons@.len() == topo[1].neurons);
    }
}

/// The response of a non-empty network has one entry per neuron of its
/// last layer.
pub proof fn lemma_net_out_len(ls: Seq<Layer>, xs: Seq<u32>)
    requires
        ls.len() > 0,
    ensures
        net_out_bits(ls, xs).len() == ls.last().neurons@.len(),
    decreases ls.len(),
{
    let rest = ls.drop_first();
    let ys = layer_out_bits(ls[0], xs);
    assert(net_out_bits(ls, xs) == net_out_bits(rest, ys));
    if ls.len() == 1 {
        assert(rest.len() == 0);
        assert(net_out_bits(rest, ys) == ys);
        assert(ys.len() == ls[0].neurons@.len());
        assert(ls.last() == ls[0]);
    } else {
        lemma_net_out_len(rest, ys);
        assert(rest.last() == ls.last());
    }
}

/// Splitting equal concatenations at equal lengths gives equal parts.
proof fn lemma_concat_cancel(s1: Seq<u32>, t1: Seq<u32>, s2: Seq<u32>, t2: Seq<u32>)
    requires
        s1 + t1 == s2 + t2,
        s1.len() == s2.len(),
    ensures
        s1 == s2,
        t1 == t2,
{
    assert forall|i: int| 0 <= i < s1.len() implies s1[i] == s2[i] by {
        assert((s1 + t1)[i] == s1[i]);
        assert((s2 + t2)[i] == s2[i]);
    }
    assert(s1 =~= s2);
    assert((s1 + t1).len() == s1.len() + t1.len());
    assert((s2 + t2).len() == s2.len() + t2.len());
    assert(t1.len() == t2.len());
    assert forall|i: int| 0 <= i < t1.len() implies t1[i] == t2[i] by {
        assert((s1 + t1)[s1.len() + i] == t1[i]);
        assert((s2 + t2)[s2.len() + i] == t2[i]);
    }
    assert(t1 =~= t2);
}

/// The genome of `k` neurons of input width `w` holds `k * (1 + w)` genes.
proof fn lemma_neurons_genome_len(ns: Seq<Neuron>, k: int, w: nat)
    requires
        0 <= k <= ns.len(),
        forall|t: int| 0 <= t < k ==> (#[trigger] ns[t]).weights@.len() == w,
    ensures
        neurons_genome(ns, k).len() == k * (1 + w),
    decreases k,
{
    if k > 0 {
        lemma_neurons_genome_len(ns, k - 1, w);
        assert(neuron_genome(ns[k - 1]).len() == 1 + w);
        assert(neurons_genome(ns, k).len() == neurons_genome(ns, k - 1).len() + neuron_genome(
            ns[k - 1],
        ).len());
        assert((k - 1) * (1 + w) + (1 + w) == k * (1 + w)) by (nonlinear_arith);
    } else {
        assert(k * (1 + w) == 0) by (nonlinear_arith)
            requires
                k == 0,
        ;
    }
}

/// One neuron's genome determines its bias and weights.
proof fn lemma_neuron_genome_inj(n1: Neuron, n2: Neuron)
    requires
        n1.weights@.len() == n2.weights@.len(),
        neuron_genome(n1) == neuron_genome(n2),
    ensures
        n1.bias == n2.bias,
        n1.weights@ == n2.weights@,
{
    assert(neuron_genome(n1)[0] == n1.bias);
    assert(neuron_genome(n2)[0] == n2.bias);
    assert forall|i: int| 0 <= i < n1.weights@.len() implies n1.weights@[i] == n2.weights@[i] by {
        assert(neuron_genome(n1)[1 + i] == n1.weights@[i]);
        assert(neuron_genome(n2)[1 + i] == n2.weights@[i]);
    }
    assert(n1.weights@ =~= n2.weights@);
}

/// The genome of `k` equal-width neurons determines each of them.
proof fn lemma_neurons_genome_inj(ns1: Seq<Neuron>, ns2: Seq<Neuron>, k: int, w: nat)
    requires
        0 <= k <= ns1.len(),
        k <= ns2.len(),
        forall|t: int| 0 <= t < k ==> (#[trigger] ns1[t]).weights@.len() == w,
        forall|t: int| 0 <= t < k ==> (#[trigger] ns2[t]).weights@.len() == w,
        neurons_genome(ns1, k) == neurons_genome(ns2, k),
    ensures
        forall|t: int|
            0 <= t < k ==> (#[trigger] ns1[t]).bias == ns2[t].bias && ns1[t].weights@
                == ns2[t].weights@,
    decreases k,
{
    if k > 0 {
        lemma_neurons_genome_len(ns1, k - 1, w);
        lemma_neurons_genome_len(ns2, k - 1, w);
        lemma_concat_cancel(
            neurons_genome(ns1, k - 1),
            neuron_genome(ns1[k - 1]),
            neurons_genome(ns2, k - 1),
            neuron_genome(ns2[k - 1]),
        );
        lemma_neurons_genome_inj(ns1, ns2, k - 1, w);
        lemma_neuron_genome_inj(ns1[k - 1], ns2[k - 1]);
    }
}

/// The genome of the first `k` layers of a topology's shape holds exactly
/// the gene count the first `k + 1` topology entries call for.
pub proof fn lemma_layers_genome_len(ls: Seq<Layer>, topo: Seq<LayerTopology>, k: int)
    requires
        matches_topology(ls, topo),
        0 <= k <= ls.len(),
    ensures
        layers_genome(ls, k).len() == genome_len_for(topo, k + 1),
    decreases k,
{
    if k > 0 {
        lemma_layers_genome_len(ls, topo, k - 1);
        lemma_neurons_genome_len(
            ls[k - 1].neurons@,
            ls[k - 1].neurons@.len() as int,
            topo[k - 1].neurons as nat,
        );
    }
}

/// Round-trip law: one topology and one genome admit only one network.
/// Two networks of the same topology whose flattened weights agree are the
/// same network, neuron for neuron, bit for bit.  With the contracts of
/// `weights` and `from_weights` this says that rebuilding a network from
/// its own flattened weights reproduces it exactly, and that flattening a
/// rebuilt network returns the genome it was built from.
pub proof fn lemma_genome_determines_network(
    a: Seq<Layer>,
    b: Seq<Layer>,
    topo: Seq<LayerTopology>,
)
    requires
        matches_topology(a, topo),
        matches_topology(b, topo),
        layers_genome(a, a.len() as int) == layers_genome(b, b.len() as int),
    ensures
        a.len() == b.len(),
        forall|i: int|
            0 <= i < a.len() ==> (#[trigger] a[i]).neurons@.len() == b[i].neurons@.len(),
        forall|i: int, j: int|
            0 <= i < a.len() && 0 <= j < a[i].neurons@.len() ==> (
            #[trigger] a[i].neurons@[j]).bias == b[i].neurons@[j].bias && a[i].neurons@[j].weights@
                == b[i].neurons@[j].weights@,
    decreases a.len(),
{
    let k = a.len() as int;
    if k > 0 {
        let ta = a.drop_last();
        let tb = b.drop_last();
        let shorter = topo.drop_last();
        assert(matches_topology(ta, shorter));
        assert(matches_topology(tb, shorter));
        lemma_layers_genome_len(a, topo, k - 1);
        lemma_layers_genome_len(b, topo, k - 1);
        assert(layers_genome(ta, k - 1) == layers_genome(a, k - 1)) by {
            lemma_layers_genome_prefix(a, k - 1);
        }
        assert(layers_genome(tb, k - 1) == layers_genome(b, k - 1)) by {
            lemma_layers_genome_prefix(b, k - 1);
        }
        lemma_concat_cancel(
            layers_genome(a, k - 1),
            layer_genome(a[k - 1]),
            layers_genome(b, k - 1),
            layer_genome(b[k - 1]),
        );
        lemma_genome_determines_network(ta, tb, shorter);
        lemma_neurons_genome_inj(
            a[k - 1].neurons@,
            b[k - 1].neurons@,
            a[k - 1].neurons@.len() as int,
            topo[k - 1].neurons as nat,
        );
        assert forall|i: int, j: int|
            0 <= i < a.len() && 0 <= j < a[i].neurons@.len() implies (
        #[trigger] a[i].neurons@[j]).bias == b[i].neurons@[j].bias && a[i].neurons@[j].weights@
            == b[i].neurons@[j].weights@ by {
            if i < k - 1 {
                assert(ta[i] == a[i] && tb[i] == b[i]);
            }
        }
    }
}

/// The genome of the first `k` layers ignores the layers beyond them.
proof fn lemma_layers_genome_prefix(ls: Seq<Layer>, k: int)
    requires
        0 <= k < ls.len(),
    ensures
        layers_genome(ls.drop_last(), k) == layers_genome(ls, k),
    decreases k,
{
    if k > 0 {
        lemma_layers_genome_prefix(ls, k - 1);
        assert(ls.drop_last()[k - 1] == ls[k - 1]);
    }
}

impl Neuron {
    /// Wraps a bias and a weight vector unchanged.
    pub fn new(bias: u32, weights: Vec<u32>) -> (r: Self)
        ensures
            r.bias == bias,
            r.weights == weights,
    {
        Neuron { bias, weights }
    }

    /// The rectified biased weighted sum of the inputs.  An all-zero
    /// neuron responds with exactly positive zero, whatever the inputs.
    pub fn propagate(&self, inputs: &Vec<u32>) -> (r: u32)
        requires
            inputs@.len() == self.weights@.len(),
        ensures
            r == neuron_out_bits(*self, inputs@),
            zero_neuron(*self) ==> r == POS_ZERO,
    {
        let n = self.weights.len();
        let mut acc: u32 = POS_ZERO;
        let mut i: usize = 0;
        while i < n
            invariant
                n == self.weights@.len(),
                inputs@.len() == n,
                i <= n,
                acc == wsum_bits(self.weights@, inputs@, i as int),
                zero_neuron(*self) ==> is_zero_or_nan_bits(acc),
            decreases n - i,
        {
            let p = f32_mul(inputs[i], self.weights[i]);
            acc = f32_add(acc, p);
            i = i + 1;
        }
        let s = f32_add(acc, self.bias);
        f32_relu(s)
    }

    /// A neuron whose bias and weights are drawn uniformly from [-1, 1],
    /// bias first.
    pub fn random(rng: &mut StdRng, input_size: usize) -> (r: Self)
        ensures
            r.weights@.len() == input_size,
            neuron_bounded(r),
    {
        let bias = draw_pm1(rng);
        let mut ws: Vec<u32> = Vec::new();
        let mut k: usize = 0;
        while k < input_size
            invariant
                k <= input_size,
                ws@.len() == k,
                forall|t: int| 0 <= t < k ==> mag_bits(#[trigger] ws@[t]) <= ONE_BITS,
            decreases input_size - k,
        {
            let w = draw_pm1(rng);
            ws.push(w);
            k = k + 1;
        }
        Neuron { bias, weights: ws }
    }
}

impl Layer {
    /// Each neuron's response to the same inputs, in order.
    pub fn propagate(&self, inputs: &Vec<u32>) -> (r: Vec<u32>)
        requires
            layer_wf(*self, inputs@.len()),
        ensures
            r@ == layer_out_bits(*self, inputs@),
    {
        let n = self.neurons.len();
        let mut out: Vec<u32> = Vec::new();
        let mut j: usize = 0;
        while j < n
            invariant
                n == self.neurons@.len(),
                layer_wf(*self, inputs@.len()),
                j <= n,
                out@.len() == j,
                forall|t: int| 0 <= t < j ==> out@[t] == neuron_out_bits(self.neurons@[t], inputs@),
            decreases n - j,
        {
            let v = self.neurons[j].propagate(inputs);
            out.push(v);
            j = j + 1;
        }
        proof {
            assert(out@ =~= layer_out_bits(*self, inputs@));
        }
        out
    }

    /// A layer of `output_size` neurons drawn one after the other, each
    /// with `input_size` uniform weights.
    pub fn random(rng: &mut StdRng, input_size: usize, output_size: usize) -> (r: Self)
        ensures
            r.neurons@.len() == output_size,
            layer_wf(r, input_size as nat),
            forall|t: int| 0 <= t < output_size ==> neuron_bounded(#[trigger] r.neurons@[t]),
    {
        let mut neurons: Vec<Neuron> = Vec::new();
        let mut j: usize = 0;
        while j < output_size
            invariant
                j <= output_size,
                neurons@.len() == j,
                forall|t: int|
                    0 <= t < j ==> (#[trigger] neurons@[t]).weights@.len() == input_size,
                forall|t: int| 0 <= t < j ==> neuron_bounded(#[trigger] neurons@[t]),
            decreases output_size - j,
        {
            let nrn = Neuron::random(rng, input_size);
            neurons.push(nrn);
            j = j + 1;
        }
        Layer { neurons }
    }
}

impl Network {
    /// Wraps a layer vector unchanged.
    pub fn new(layers: Vec<Layer>) -> (r: Self)
        ensures
            r.layers == layers,
    {
        Network { layers }
    }

    /// The layers applied in order to the input vector.
    pub fn propagate(&self, inputs: Vec<u32>) -> (r: Vec<u32>)
        requires
            chain_wf(self.layers@, inputs@.len()),
        ensures
            r@ == net_out_bits(self.layers@, inputs@),
    {
        let n = self.layers.len();
        let mut current = inputs;
        let mut i: usize = 0;
        proof {
            assert(self.layers@.subrange(0, n as int) =~= self.layers@);
        }
        while i < n
            invariant
                n == self.layers@.len(),
                i <= n,
                chain_wf(self.layers@.subrange(i as int, n as int), current@.len()),
                net_out_bits(self.layers@.subrange(i as int, n as int), current@)
                    == net_out_bits(self.layers@, inputs@),
            decreases n - i,
        {
            proof {
                assert(self.layers@.subrange(i as int, n as int)[0] == self.layers@[i as int]);
                assert(self.layers@.subrange(i as int, n as int).drop_first()
                    =~= self.layers@.subrange(i as int + 1, n as int));
            }
            current = self.layers[i].propagate(&current);
            i = i + 1;
        }
        proof {
            assert(self.layers@.subrange(n as int, n as int) =~= Seq::<Layer>::empty());
        }
        current
    }

    /// Flattens the network: for every layer in order and every neuron in
    /// order, the bias and then the weights in order.
    pub fn weights(&self) -> (r: Vec<u32>)
        ensures
            r@ == net_genome(*self),
    {
        let nl = self.layers.len();
        let mut out: Vec<u32> = Vec::new();
        let mut i: usize = 0;
        while i < nl
            invariant
                nl == self.layers@.len(),
                i <= nl,
                out@ == layers_genome(self.layers@, i as int),
            decreases nl - i,
        {
            let nn = self.layers[i].neurons.len();
            let mut j: usize = 0;
            while j < nn
                invariant
                    nl == self.layers@.len(),
                    i < nl,
                    nn == self.layers@[i as int].neurons@.len(),
                    j <= nn,
                    out@ == layers_genome(self.layers@, i as int) + neurons_genome(
                        self.layers@[i as int].neurons@,
                        j as int,
                    ),
                decreases nn - j,
            {
                let nw = self.layers[i].neurons[j].weights.len();
                out.push(self.layers[i].neurons[j].bias);
                let mut k: usize = 0;
                while k < nw
                    invariant
                        nl == self.layers@.len(),
                        i < nl,
                        nn == self.layers@[i as int].neurons@.len(),
                        j < nn,
                        nw == self.layers@[i as int].neurons@[j as int].weights@.len(),
                        k <= nw,
                        out@ == layers_genome(self.layers@, i as int) + neurons_genome(
                            self.layers@[i as int].neurons@,
                            j as int,
                        ) + seq![self.layers@[i as int].neurons@[j as int].bias]
                            + self.layers@[i as int].neurons@[j as int].weights@.subrange(
                            0,
                            k as int,
                        ),
                    decreases nw - k,
                {
                    out.push(self.layers[i].neurons[j].weights[k]);
                    proof {
                        let nrn = self.layers@[i as int].neurons@[j as int];
                        assert(nrn.weights@.subrange(0, k as int).push(nrn.weights@[k as int])
                            =~= nrn.weights@.subrange(0, k + 1));
                        assert(out@ =~= layers_genome(self.layers@, i as int) + neurons_genome(
                            self.layers@[i as int].neurons@,
                            j as int,
                        ) + seq![nrn.bias] + nrn.weights@.subrange(0, k + 1));
                    }
                    k = k + 1;
                }
                proof {
                    let nrn = self.layers@[i as int].neurons@[j as int];
                    assert(nrn.weights@.subrange(0, nw as int) =~= nrn.weights@);
                    assert(neurons_genome(self.layers@[i as int].neurons@, j + 1)
                        == neurons_genome(self.layers@[i as int].neurons@, j as int)
                        + neuron_genome(nrn));
                    assert(out@ =~= layers_genome(self.layers@, i as int) + neurons_genome(
                        self.layers@[i as int].neurons@,
                        j + 1,
                    ));
                }
                j = j + 1;
            }
            proof {
                assert(neurons_genome(self.layers@[i as int].neurons@, nn as int)
                    == layer_genome(self.layers@[i as int]));
                assert(out@ =~= layers_genome(self.layers@, i + 1));
            }
            i = i + 1;
        }
        out
    }

    /// Rebuilds a network from a genome, consuming exactly one bias and
    /// one weight per input for every neuron, in the traversal order of
    /// `weights`.  Succeeds exactly when the genome length is the one the
    /// topology calls for; a short genome and leftover genes are each
    /// rejected with their own error.
    pub fn from_weights(topology: &Vec<LayerTopology>, genome: &Chromosome) -> (r: Result<
        Network,
        DecodeError,
    >)
        ensures
            match r {
                Ok(net) => {
                    &&& genome@.len() == genome_len(topology@)
                    &&& topology@.len() >= 1 ==> matches_topology(net.layers@, topology@)
                    &&& topology@.len() == 0 ==> net.layers@.len() == 0
                    &&& net_genome(net) == genome@
                },
                Err(DecodeError::MissingGenes) => genome@.len() < genome_len(topology@),
                Err(DecodeError::ExtraGenes) => genome@.len() > genome_len(topology@),
            },
    {
        let nt = topology.len();
        let glen = genome.len();
        let mut layers: Vec<Layer> = Vec::new();
        let mut cursor: usize = 0;
        let mut li: usize = 1;
        while li < nt
            invariant
                nt == topology@.len(),
                glen == genome@.len(),
                1 <= li,
                nt >= 1 ==> li <= nt,
                nt == 0 ==> li == 1,
                layers@.len() == li - 1,
                forall|t: int|
                    0 <= t < li - 1 ==> {
                        &&& (#[trigger] layers@[t]).neurons@.len() == topology@[t + 1].neurons
                        &&& layer_wf(layers@[t], topology@[t].neurons as nat)
                    },
                cursor == genome_len_for(topology@, li as int),
                cursor <= glen,
                layers_genome(layers@, li - 1) == genome@.subrange(0, cursor as int),
            decreases nt - li,
        {
            let ins = topology[li - 1].neurons;
            let outs = topology[li].neurons;
            let ghost cursor0: int = cursor as int;
            let mut neurons: Vec<Neuron> = Vec::new();
            let mut j: usize = 0;
            while j < outs
                invariant
                    nt == topology@.len(),
                    glen == genome@.len(),
                    1 <= li < nt,
                    ins == topology@[li - 1].neurons,
                    outs == topology@[li as int].neurons,
                    cursor0 == genome_len_for(topology@, li as int),
                    layers@.len() == li - 1,
                    forall|t: int|
                        0 <= t < li - 1 ==> {
                            &&& (#[trigger] layers@[t]).neurons@.len() == topology@[t + 1].neurons
                            &&& layer_wf(layers@[t], topology@[t].neurons as nat)
                        },
                    j <= outs,
                    neurons@.len() == j,
                    forall|t: int|
                        0 <= t < j ==> (#[trigger] neurons@[t]).weights@.len() == ins,
                    cursor == cursor0 + j * (1 + ins),
                    cursor <= glen,
                    layers_genome(layers@, li - 1) + neurons_genome(neurons@, j as int)
                        == genome@.subrange(0, cursor as int),
                decreases outs - j,
            {
                proof {
                    lemma_genome_len_mono(topology@, li as int + 1, nt as int);
                    assert(genome_len_for(topology@, li as int + 1) == cursor0 + outs * (1
                        + ins));
                    assert((j + 1) * (1 + ins) <= outs * (1 + ins)) by (nonlinear_arith)
                        requires
                            0 <= j < outs,
                            ins >= 0,
                    ;
                    assert(j * (1 + ins) < (j + 1) * (1 + ins)) by (nonlinear_arith)
                        requires
                            j >= 0,
                            ins >= 0,
                    ;
                }
                if cursor >= glen {
                    return Err(DecodeError::MissingGenes);
                }
                let bias = genome.get(cursor);
                cursor = cursor + 1;
                proof {
                    assert(genome@.subrange(0, cursor as int) =~= genome@.subrange(
                        0,
                        cursor - 1,
                    ).push(genome@[cursor - 1]));
                    assert(layers_genome(layers@, li - 1) + neurons_genome(neurons@, j as int)
                        + seq![bias] + Seq::<u32>::empty() =~= (layers_genome(layers@, li - 1)
                        + neurons_genome(neurons@, j as int)).push(bias));
                }
                let mut ws: Vec<u32> = Vec::new();
                let mut k: usize = 0;
                while k < ins
                    invariant
                        nt == topology@.len(),
                        glen == genome@.len(),
                        1 <= li < nt,
                        ins == topology@[li - 1].neurons,
                        outs == topology@[li as int].neurons,
                        cursor0 == genome_len_for(topology@, li as int),
                        j < outs,
                        k <= ins,
                        ws@.len() == k,
                        cursor == cursor0 + j * (1 + ins) + 1 + k,
                        cursor <= glen,
                        layers_genome(layers@, li - 1) + neurons_genome(neurons@, j as int)
                            + seq![bias] + ws@ == genome@.subrange(0, cursor as int),
                    decreases ins - k,
                {
                    proof {
                        lemma_genome_len_mono(topology@, li as int + 1, nt as int);
                        assert(genome_len_for(topology@, li as int + 1) == cursor0 + outs * (1
                            + ins));
                        assert((j + 1) * (1 + ins) <= outs * (1 + ins)) by (nonlinear_arith)
                            requires
                                0 <= j < outs,
                                ins >= 0,
                        ;
                        assert(j * (1 + ins) + 1 + k < (j + 1) * (1 + ins)) by (nonlinear_arith)
                            requires
                                0 <= k < ins,
                        ;
                    }
                    if cursor >= glen {
                        return Err(DecodeError::MissingGenes);
                    }
                    let g = genome.get(cursor);
                    ws.push(g);
                    cursor = cursor + 1;
                    proof {
                        assert(genome@.subrange(0, cursor as int) =~= genome@.subrange(
                            0,
                            cursor - 1,
                        ).push(genome@[cursor - 1]));
                        assert(layers_genome(layers@, li - 1) + neurons_genome(
                            neurons@,
                            j as int,
                        ) + seq![bias] + ws@ =~= (layers_genome(layers@, li - 1)
                            + neurons_genome(neurons@, j as int) + seq![bias] + ws@.drop_last()).push(
                            g,
                        ));
                    }
                    k = k + 1;
                }
                let nrn = Neuron { bias, weights: ws };
                proof {
                    lemma_neurons_genome_push(neurons@, nrn, j as int);
                    assert(neurons@.push(nrn)[j as int] == nrn);
                    assert(neuron_genome(nrn) == seq![bias] + nrn.weights@);
                    assert(layers_genome(layers@, li - 1) + neurons_genome(
                        neurons@.push(nrn),
                        j + 1,
                    ) =~= layers_genome(layers@, li - 1) + neurons_genome(neurons@, j as int)
                        + seq![bias] + nrn.weights@);
                    assert(j * (1 + ins) + 1 + ins == (j + 1) * (1 + ins)) by (nonlinear_arith);
                }
                neurons.push(nrn);
                j = j + 1;
            }
            let lyr = Layer { neurons };
            proof {
                lemma_layers_genome_push(layers@, lyr, li - 1);
                assert(layers@.push(lyr)[li - 1] == lyr);
                assert(layer_genome(lyr) == neurons_genome(lyr.neurons@,
                    lyr.neurons@.len() as int));
                assert(layers_genome(layers@.push(lyr), li as int) == layers_genome(
                    layers@,
                    li - 1,
                ) + layer_genome(lyr));
                assert(outs * (1 + ins) == outs + outs * ins) by (nonlinear_arith);
                assert(genome_len_for(topology@, li as int + 1) == cursor0 + outs * (1 + ins));
            }
            layers.push(lyr);
            li = li + 1;
        }
        if cursor < glen {
            return Err(DecodeError::ExtraGenes);
        }
        proof {
            if nt >= 1 {
                assert(li == nt);
            }
            assert(cursor == genome_len(topology@));
            assert(cursor == glen);
            assert(genome@.subrange(0, glen as int) =~= genome@);
        }
        Ok(Network { layers })
    }

    /// Builds a network of the topology's shape whose biases and weights
    /// are drawn uniformly from [-1, 1], one neuron after the other, bias
    /// first.
    pub fn random(rng: &mut StdRng, topology: &Vec<LayerTopology>) -> (r: Network)
        ensures
            topology@.len() >= 1 ==> matches_topology(r.layers@, topology@),
            topology@.len() == 0 ==> r.layers@.len() == 0,
            net_bounded(r.layers@),
    {
        let nt = topology.len();
        let mut layers: Vec<Layer> = Vec::new();
        let mut li: usize = 1;
        while li < nt
            invariant
                nt == topology@.len(),
                1 <= li,
                nt >= 1 ==> li <= nt,
                nt == 0 ==> li == 1,
                layers@.len() == li - 1,
                forall|t: int|
                    0 <= t < li - 1 ==> {
                        &&& (#[trigger] layers@[t]).neurons@.len() == topology@[t + 1].neurons
                        &&& layer_wf(layers@[t], topology@[t].neurons as nat)
                    },
                net_bounded(layers@),
            decreases nt - li,
        {
            let lyr = Layer::random(rng, topology[li - 1].neurons, topology[li].neurons);
            layers.push(lyr);
            li = li + 1;
        }
        Network { layers }
    }
}

} // verus!
