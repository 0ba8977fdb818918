//! The neural controller: a feed-forward network from a vision vector to a
//! movement command, convertible to and from a flat chromosome.
//!
//! Activation family (fixed for the whole run): hidden neurons use a
//! rectified-linear activation clamped into `[0, ONE]`; the two output
//! neurons use the identity clamped into `[-ONE, ONE]`. Inputs, weights and
//! biases are micro-units, and each weighted sum is scaled back by `ONE`
//! with truncation toward zero.

use vstd::prelude::*;
use crate::config::ConfigError;
use crate::fx::{mul_abs_le, mul_le, ONE};
use crate::rng::SimRng;

verus! {

/// The shape of every brain of one run: input width (the number of eye
/// cells) and hidden-layer width. The output width is always two.
#[derive(Clone, Copy, Debug, PartialEq, Eq, Structural)]
pub struct Topology {
    /// Input width: the length of the vision vector.
    pub inputs: usize,
    /// Number of neurons of the hidden layer.
    pub hidden: usize,
}

impl Topology {
    /// The machine caps of the fixed-point network.
    pub open spec fn wf(&self) -> bool {
        &&& 1 <= self.inputs <= 1000
        &&& 1 <= self.hidden <= 100
    }
}

/// One neuron: a bias and one weight per input, all micro-units.
#[derive(Debug)]
pub struct Neuron {
    /// Additive bias of the weighted sum.
    pub bias: i64,
    /// One weight per input of the layer.
    pub weights: Vec<i64>,
}

/// A two-layer feed-forward network.
#[derive(Debug)]
pub struct Brain {
    /// Hidden layer, one neuron per hidden slot.
    pub hidden: Vec<Neuron>,
    /// Output layer: exactly two neurons, speed delta and rotation delta.
    pub output: Vec<Neuron>,
}

/// Dot product of two equally long sequences, as an unbounded integer.
pub open spec fn dot(ws: Seq<i64>, xs: Seq<i64>) -> int
    decreases ws.len(),
{
    if ws.len() == 0 || xs.len() == 0 {
        0
    } else {
        dot(ws.drop_last(), xs.drop_last()) + ws.last() * xs.last()
    }
}

/// Division by `ONE` truncating toward zero, as the executable scaling does.
pub open spec fn tdiv_one(v: int) -> int {
    if v >= 0 {
        v / (ONE as int)
    } else {
        -((-v) / (ONE as int))
    }
}

/// The activation: rectification (hidden only), then a clamp into
/// `[-ONE, ONE]` (into `[0, ONE]` after rectification).
pub open spec fn activate(v: int, relu: bool) -> i64 {
    let w: int = if relu && v < 0 {
        0
    } else {
        v
    };
    if w > ONE {
        ONE as i64
    } else if w < -ONE {
        (-ONE) as i64
    } else {
        w as i64
    }
}

/// What one neuron returns on an input vector.
pub open spec fn spec_neuron(n: Neuron, xs: Seq<i64>, relu: bool) -> i64 {
    activate(n.bias + tdiv_one(dot(n.weights@, xs)), relu)
}

/// What a whole layer returns on an input vector.
pub open spec fn spec_layer(ns: Seq<Neuron>, xs: Seq<i64>, relu: bool) -> Seq<i64> {
    Seq::new(ns.len(), |k: int| spec_neuron(ns[k], xs, relu))
}

/// The genes of one neuron: its bias, then its weights in order.
pub open spec fn neuron_genes(n: Neuron) -> Seq<i64> {
    seq![n.bias] + n.weights@
}

/// The genes of a layer: each neuron's genes, in neuron order.
pub open spec fn layer_genes(ns: Seq<Neuron>) -> Seq<i64>
    decreases ns.len(),
{
    if ns.len() == 0 {
        Seq::empty()
    } else {
        layer_genes(ns.drop_last()) + neuron_genes(ns.last())
    }
}

/// The chromosome of a brain: hidden genes, then output genes. This
/// flattening is bijective and order-preserving on well-formed brains.
pub open spec fn chromosome_of(b: Brain) -> Seq<i64> {
    layer_genes(b.hidden@) + layer_genes(b.output@)
}

/// The chromosome length that a topology dictates.
pub open spec fn chrom_len(t: Topology) -> int {
    t.hidden * (1 + t.inputs) + 2 * (1 + t.hidden)
}

proof fn lemma_layer_genes_push(ns: Seq<Neuron>, n: Neuron)
    ensures
        layer_genes(ns.push(n)) == layer_genes(ns) + neuron_genes(n),
{
    assert(ns.push(n).drop_last() =~= ns);
    assert(ns.push(n).last() == n);
}

proof fn lemma_dot_take(ws: Seq<i64>, xs: Seq<i64>, j: int)
    requires
        0 <= j < ws.len(),
        j < xs.len(),
    ensures
        dot(ws.take(j + 1), xs.take(j + 1)) == dot(ws.take(j), xs.take(j)) + ws[j] * xs[j],
{
    assert(ws.take(j + 1).drop_last() =~= ws.take(j));
    assert(xs.take(j + 1).drop_last() =~= xs.take(j));
    assert(ws.take(j + 1).last() == ws[j]);
    assert(xs.take(j + 1).last() == xs[j]);
}

/// Evaluate one neuron; the weighted sum runs in 128-bit arithmetic, so any
/// 64-bit weights are admitted without overflow.
fn eval_neuron(n: &Neuron, xs: &Vec<i64>, relu: bool) -> (r: i64)
    requires
        n.weights@.len() == xs@.len(),
        xs@.len() <= 1000,
        forall|k: int| 0 <= k < xs@.len() ==> -ONE <= #[trigger] xs@[k] <= ONE,
    ensures
        r == spec_neuron(*n, xs@, relu),
        -ONE <= r <= ONE,
        relu ==> 0 <= r,
{
    let len: usize = xs.len();
    let mut acc: i128 = 0;
    let mut j: usize = 0;
    while j < len
        invariant
            j <= len,
            len == xs@.len(),
            n.weights@.len() == len,
            len <= 1000,
            forall|k: int| 0 <= k < xs@.len() ==> -ONE <= #[trigger] xs@[k] <= ONE,
            acc == dot(n.weights@.take(j as int), xs@.take(j as int)),
            -(j as int) * (0x8000_0000_0000_0000 * 0x10_0000) <= acc <= (j as int) * (
            0x8000_0000_0000_0000 * 0x10_0000),
        decreases len - j,
    {
        let w: i64 = n.weights[j];
        let x: i64 = xs[j];
        proof {
            mul_abs_le(w as int, x as int, 0x8000_0000_0000_0000int, 0x10_0000int);
        }
        let p: i128 = (w as i128) * (x as i128);
        proof {
            assert(p == (w as int) * (x as int));
            mul_le((j + 1) as int, 0x8000_0000_0000_0000int * 0x10_0000, 1000,
                0x8000_0000_0000_0000int * 0x10_0000);
            assert(((j + 1) as int) * (0x8000_0000_0000_0000int * 0x10_0000) == (j as int) * (
            0x8000_0000_0000_0000int * 0x10_0000) + 0x8000_0000_0000_0000int * 0x10_0000)
                by (nonlinear_arith);
            lemma_dot_take(n.weights@, xs@, j as int);
        }
        proof {
            assert(-(0x8000_0000_0000_0000int * 0x10_0000) <= p <= 0x8000_0000_0000_0000int
                * 0x10_0000);
            assert(-(j as int) * (0x8000_0000_0000_0000int * 0x10_0000) <= acc <= (j as int) * (
            0x8000_0000_0000_0000int * 0x10_0000));
            assert(-((j + 1) as int) * (0x8000_0000_0000_0000int * 0x10_0000) <= acc + p <= ((j
                + 1) as int) * (0x8000_0000_0000_0000int * 0x10_0000));
        }
        acc = acc + p;
        j = j + 1;
    }
    proof {
        assert(n.weights@.take(len as int) =~= n.weights@);
        assert(xs@.take(len as int) =~= xs@);
        mul_le(len as int, 0x8000_0000_0000_0000int * 0x10_0000, 1000,
            0x8000_0000_0000_0000int * 0x10_0000);
        assert((len as int) * (0x8000_0000_0000_0000int * 0x10_0000) <= 1000 * (
        0x8000_0000_0000_0000int * 0x10_0000));
        assert(acc <= (len as int) * (0x8000_0000_0000_0000int * 0x10_0000));
        assert(-(len as int) * (0x8000_0000_0000_0000int * 0x10_0000) <= acc);
        assert(-(1000 * (0x8000_0000_0000_0000int * 0x10_0000)) <= acc <= 1000 * (
        0x8000_0000_0000_0000int * 0x10_0000));
    }
    let neg: bool = acc < 0;
    let mag: u128 = if neg {
        (-acc) as u128
    } else {
        acc as u128
    };
    let qm: u128 = mag / 1_000_000u128;
    proof {
        assert(qm <= mag);
    }
    let sq: i128 = if neg {
        -(qm as i128)
    } else {
        qm as i128
    };
    let rawv: i128 = (n.bias as i128) + sq;
    let act: i128 = if relu && rawv < 0 {
        0
    } else {
        rawv
    };
    let res: i128 = if act > 1_000_000i128 {
        1_000_000
    } else if act < -1_000_000i128 {
        -1_000_000
    } else {
        act
    };
    res as i64
}

/// Evaluate a whole layer, in neuron order.
fn eval_layer(ns: &Vec<Neuron>, xs: &Vec<i64>, relu: bool) -> (r: Vec<i64>)
    requires
        forall|k: int| 0 <= k < ns@.len() ==> (#[trigger] ns@[k]).weights@.len() == xs@.len(),
        xs@.len() <= 1000,
        forall|k: int| 0 <= k < xs@.len() ==> -ONE <= #[trigger] xs@[k] <= ONE,
    ensures
        r@.len() == ns@.len(),
        forall|k: int| 0 <= k < ns@.len() ==> #[trigger] r@[k] == spec_neuron(ns@[k], xs@, relu),
        forall|k: int|
            0 <= k < r@.len() ==> -ONE <= #[trigger] r@[k] <= ONE && (relu ==> 0 <= r@[k]),
{
    let mut out: Vec<i64> = Vec::new();
    let mut i: usize = 0;
    while i < ns.len()
        invariant
            i <= ns@.len(),
            out@.len() == i,
            forall|k: int| 0 <= k < ns@.len() ==> (#[trigger] ns@[k]).weights@.len() == xs@.len(),
            xs@.len() <= 1000,
            forall|k: int| 0 <= k < xs@.len() ==> -ONE <= #[trigger] xs@[k] <= ONE,
            forall|k: int| 0 <= k < i ==> #[trigger] out@[k] == spec_neuron(ns@[k], xs@, relu),
            forall|k: int|
                0 <= k < i ==> -ONE <= #[trigger] out@[k] <= ONE && (relu ==> 0 <= out@[k]),
        decreases ns@.len() - i,
    {
        let v: i64 = eval_neuron(&ns[i], xs, relu);
        out.push(v);
        i = i + 1;
    }
    out
}

impl Brain {
    /// Structural consistency against an input width: a non-empty capped
    /// hidden layer fed by `inputs` values, and exactly two output neurons
    /// fed by the hidden layer.
    pub open spec fn fits(&self, inputs: nat) -> bool {
        &&& 1 <= self.hidden@.len() <= 100
        &&& inputs <= 1000
        &&& forall|k: int|
            0 <= k < self.hidden@.len() ==> (#[trigger] self.hidden@[k]).weights@.len() == inputs
        &&& self.output@.len() == 2
        &&& forall|k: int|
            0 <= k < self.output@.len() ==> (#[trigger] self.output@[k]).weights@.len()
                == self.hidden@.len()
    }

    /// Well-formedness against a topology.
    pub open spec fn wf(&self, t: Topology) -> bool {
        self.fits(t.inputs as nat) && self.hidden@.len() == t.hidden
    }

    /// Pure feed-forward evaluation: the hidden layer's rectified outputs
    /// feed the two output neurons, yielding the speed delta and the
    /// rotation delta, each clamped into `[-ONE, ONE]`.
    pub fn propagate(&self, vision: &Vec<i64>) -> (r: (i64, i64))
        requires
            self.fits(vision@.len()),
            forall|k: int| 0 <= k < vision@.len() ==> -ONE <= #[trigger] vision@[k] <= ONE,
        ensures
            ({
                let hid = spec_layer(self.hidden@, vision@, true);
                r.0 == spec_neuron(self.output@[0], hid, false) && r.1 == spec_neuron(
                    self.output@[1],
                    hid,
                    false,
                )
            }),
            -ONE <= r.0 <= ONE,
            -ONE <= r.1 <= ONE,
    {
        let hid: Vec<i64> = eval_layer(&self.hidden, vision, true);
        proof {
            assert(hid@ =~= spec_layer(self.hidden@, vision@, true));
        }
        let s: i64 = eval_neuron(&self.output[0], &hid, false);
        let a: i64 = eval_neuron(&self.output[1], &hid, false);
        (s, a)
    }

    /// Flatten this brain into its chromosome: for each hidden neuron its
    /// bias then weights, then the same for the two output neurons.
    pub fn to_chromosome(&self) -> (r: Vec<i64>)
        ensures
            r@ == chromosome_of(*self),
    {
        let mut r: Vec<i64> = layer_chromosome(&self.hidden);
        let mut o: Vec<i64> = layer_chromosome(&self.output);
        r.append(&mut o);
        r
    }

    /// Rebuild a brain from a chromosome. Succeeds exactly on chromosomes
    /// of the length the topology dictates, and the result flattens back to
    /// the given chromosome (the round trip is exact).
    pub fn from_chromosome(c: &Vec<i64>, t: Topology) -> (r: Result<Brain, ConfigError>)
        requires
            t.wf(),
        ensures
            ({
                match r {
                    Ok(b) => c@.len() == chrom_len(t) && b.wf(t) && chromosome_of(b) == c@,
                    Err(e) => c@.len() != chrom_len(t) && e == ConfigError::ChromosomeLength,
                }
            }),
    {
        let expected: usize = chromosome_len(t);
        if c.len() != expected {
            return Err(ConfigError::ChromosomeLength);
        }
        proof {
            mul_le(t.hidden as int, (1 + t.inputs) as int, 100, 1001);
        }
        let (hidden, mid) = parse_layer(c, 0, t.hidden, t.inputs);
        let (output, end) = parse_layer(c, mid, 2, t.hidden);
        let b = Brain { hidden, output };
        proof {
            assert(chromosome_of(b) =~= c@.subrange(0, mid as int) + c@.subrange(
                mid as int,
                end as int,
            ));
            assert(c@.subrange(0, mid as int) + c@.subrange(mid as int, end as int) =~= c@);
        }
        Ok(b)
    }

    /// A freshly randomized brain: every gene drawn uniformly from
    /// `[-ONE, ONE]`.
    pub fn random(rng: &mut SimRng, t: Topology) -> (r: Brain)
        requires
            t.wf(),
        ensures
            r.wf(t),
            forall|k: int|
                0 <= k < chromosome_of(r).len() ==> -ONE <= #[trigger] chromosome_of(r)[k] <= ONE,
    {
        let len: usize = chromosome_len(t);
        let mut c: Vec<i64> = Vec::new();
        let mut i: usize = 0;
        while i < len
            invariant
                i <= len,
                c@.len() == i,
                forall|k: int| 0 <= k < i ==> -ONE <= #[trigger] c@[k] <= ONE,
            decreases len - i,
        {
            let g: i64 = rng.gen_i64(-ONE, ONE + 1);
            c.push(g);
            i = i + 1;
        }
        match Brain::from_chromosome(&c, t) {
            Ok(b) => b,
            Err(_) => vstd::pervasive::unreached(),
        }
    }
}

/// The chromosome length that a topology dictates, as executable code.
pub fn chromosome_len(t: Topology) -> (r: usize)
    requires
        t.wf(),
    ensures
        r == chrom_len(t),
{
    proof {
        mul_le(t.hidden as int, (1 + t.inputs) as int, 100, 1001);
    }
    t.hidden * (1 + t.inputs) + 2 * (1 + t.hidden)
}

/// Emit the genes of one layer in order.
fn layer_chromosome(ns: &Vec<Neuron>) -> (r: Vec<i64>)
    ensures
        r@ == layer_genes(ns@),
{
    let mut out: Vec<i64> = Vec::new();
    let mut i: usize = 0;
    while i < ns.len()
        invariant
            i <= ns@.len(),
            out@ == layer_genes(ns@.take(i as int)),
        decreases ns@.len() - i,
    {
        out.push(ns[i].bias);
        let mut j: usize = 0;
        while j < ns[i].weights.len()
            invariant
                i < ns@.len(),
                j <= ns@[i as int].weights@.len(),
                out@ == layer_genes(ns@.take(i as int)) + seq![ns@[i as int].bias]
                    + ns@[i as int].weights@.take(j as int),
            decreases ns@[i as int].weights@.len() - j,
        {
            out.push(ns[i].weights[j]);
            proof {
                assert(ns@[i as int].weights@.take(j + 1) =~= ns@[i as int].weights@.take(
                    j as int,
                ).push(ns@[i as int].weights@[j as int]));
            }
            j = j + 1;
        }
        proof {
            assert(ns@[i as int].weights@.take(ns@[i as int].weights@.len() as int)
                =~= ns@[i as int].weights@);
            lemma_layer_genes_push(ns@.take(i as int), ns@[i as int]);
            assert(ns@.take(i as int).push(ns@[i as int]) =~= ns@.take(i + 1));
        }
        i = i + 1;
    }
    proof {
        assert(ns@.take(ns@.len() as int) =~= ns@);
    }
    out
}

/// Parse `count` neurons of `inputs` weights each, starting at `start`.
fn parse_layer(c: &Vec<i64>, start: usize, count: usize, inputs: usize) -> (r: (Vec<Neuron>, usize))
    requires
        count <= 1000,
        inputs <= 1000,
        start + count * (1 + inputs) <= c@.len(),
        c@.len() <= 200_000,
    ensures
        r.0@.len() == count,
        forall|k: int| 0 <= k < count ==> (#[trigger] r.0@[k]).weights@.len() == inputs,
        r.1 == start + count * (1 + inputs),
        layer_genes(r.0@) == c@.subrange(start as int, r.1 as int),
{
    let mut ns: Vec<Neuron> = Vec::new();
    let mut pos: usize = start;
    let mut i: usize = 0;
    while i < count
        invariant
            i <= count,
            count <= 1000,
            inputs <= 1000,
            ns@.len() == i,
            forall|k: int| 0 <= k < i ==> (#[trigger] ns@[k]).weights@.len() == inputs,
            pos == start + i * (1 + inputs),
            start + count * (1 + inputs) <= c@.len(),
            c@.len() <= 200_000,
            layer_genes(ns@) == c@.subrange(start as int, pos as int),
        decreases count - i,
    {
        proof {
            assert(((i + 1) as int) * ((1 + inputs) as int) == (i as int) * ((1 + inputs) as int)
                + ((1 + inputs) as int)) by (nonlinear_arith);
            mul_le((i + 1) as int, (1 + inputs) as int, count as int, (1 + inputs) as int);
        }
        let bias: i64 = c[pos];
        let mut w: Vec<i64> = Vec::new();
        let mut j: usize = 0;
        while j < inputs
            invariant
                j <= inputs,
                w@.len() == j,
                pos + 1 + inputs <= c@.len(),
                c@.len() <= 200_000,
                w@ == c@.subrange(pos + 1, pos + 1 + j as int),
            decreases inputs - j,
        {
            w.push(c[pos + 1 + j]);
            proof {
                assert(c@.subrange(pos + 1, pos + 1 + (j + 1)) =~= c@.subrange(
                    pos + 1,
                    pos + 1 + j as int,
                ).push(c@[pos + 1 + j as int]));
            }
            j = j + 1;
        }
        let nr = Neuron { bias, weights: w };
        proof {
            assert(neuron_genes(nr) =~= c@.subrange(pos as int, pos + 1 + inputs as int));
            lemma_layer_genes_push(ns@, nr);
            assert(c@.subrange(start as int, pos as int) + c@.subrange(
                pos as int,
                pos + 1 + inputs as int,
            ) =~= c@.subrange(start as int, pos + 1 + inputs as int));
        }
        ns.push(nr);
        pos = pos + 1 + inputs;
        i = i + 1;
    }
    (ns, pos)
}

/// A layer's genes count one slot per neuron bias and one per weight.
pub proof fn lemma_layer_genes_len(ns: Seq<Neuron>, w: nat)
    requires
        forall|k: int| 0 <= k < ns.len() ==> (#[trigger] ns[k]).weights@.len() == w,
    ensures
        layer_genes(ns).len() == ns.len() * (1 + w),
    decreases ns.len(),
{
    if ns.len() == 0 {
    } else {
        assert(forall|k: int|
            0 <= k < ns.drop_last().len() ==> (#[trigger] ns.drop_last()[k]).weights@.len() == w);
        lemma_layer_genes_len(ns.drop_last(), w);
        assert(ns[ns.len() - 1].weights@.len() == w);
        assert((ns.len() - 1) * (1 + w) + (1 + w) == ns.len() * (1 + w)) by (nonlinear_arith);
    }
}

/// A well-formed brain's chromosome has exactly the length its topology
/// dictates; together with the contracts of `to_chromosome` and
/// `from_chromosome` this pins the exact round trip between the two.
pub proof fn lemma_chromosome_len(b: Brain, t: Topology)
    requires
        b.wf(t),
    ensures
        chromosome_of(b).len() == chrom_len(t),
{
    lemma_layer_genes_len(b.hidden@, t.inputs as nat);
    lemma_layer_genes_len(b.output@, t.hidden as nat);
}

/// A neuron whose bias and weights are all zero.
pub open spec fn zero_neuron(n: Neuron) -> bool {
    n.bias == 0 && forall|k: int| 0 <= k < n.weights@.len() ==> #[trigger] n.weights@[k] == 0
}

/// A brain whose weights and biases are all zero.
pub open spec fn all_zero(b: Brain) -> bool {
    (forall|k: int| 0 <= k < b.hidden@.len() ==> zero_neuron(#[trigger] b.hidden@[k])) && (forall|
        k: int,
    |
        0 <= k < b.output@.len() ==> zero_neuron(#[trigger] b.output@[k]))
}

proof fn lemma_dot_zero(ws: Seq<i64>, xs: Seq<i64>)
    requires
        forall|k: int| 0 <= k < ws.len() ==> #[trigger] ws[k] == 0,
    ensures
        dot(ws, xs) == 0,
    decreases ws.len(),
{
    if ws.len() == 0 || xs.len() == 0 {
    } else {
        lemma_dot_zero(ws.drop_last(), xs.drop_last());
        assert(ws.last() == 0);
        assert(ws.last() * xs.last() == 0) by (nonlinear_arith)
            requires
                ws.last() == 0,
        ;
    }
}

/// A zeroed network keeps the agent stationary: with every bias and weight
/// zero, both movement deltas that `propagate` is specified to return are
/// exactly zero, for any vision input.
pub proof fn lemma_zero_brain_is_still(b: Brain, vision: Seq<i64>)
    requires
        b.fits(vision.len()),
        all_zero(b),
    ensures
        ({
            let hid = spec_layer(b.hidden@, vision, true);
            spec_neuron(b.output@[0], hid, false) == 0 && spec_neuron(b.output@[1], hid, false)
                == 0
        }),
{
    let hid = spec_layer(b.hidden@, vision, true);
    lemma_dot_zero(b.output@[0].weights@, hid);
    lemma_dot_zero(b.output@[1].weights@, hid);
    assert(tdiv_one(0) == 0);
}

} // verus!
