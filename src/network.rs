use vstd::prelude::*;

use crate::activators::Activator;
use crate::layer::{Layer, LayerGradient, UnitSource};
use crate::matrix::Vector;
use crate::scalar::Real;
use crate::valueset::ValueSet;
use vstd::arithmetic::div_mod::{
    lemma_fundamental_div_mod, lemma_fundamental_div_mod_converse, lemma_mod_bound,
};

verus! {

/// The vector after the first `k` of `layers`, starting from `x`.
pub open spec fn hidden_pass<T: Real, A: Activator<T>, const W: usize>(
    layers: Seq<Layer<T, W, W>>,
    x: Seq<T>,
    activator: &A,
    k: nat,
) -> Seq<T>
    decreases k,
{
    if k == 0 {
        x
    } else {
        layers[k - 1].spec_through(hidden_pass(layers, x, activator, (k - 1) as nat), activator)
    }
}

/// A network of `H + 2` layers: a first layer from `I` inputs to `W`
/// neurons, `H` hidden layers of `W` neurons, and a last layer from `W`
/// neurons to `O` outputs. `H` may be zero.
pub struct SimpleNetwork<T, const I: usize, const O: usize, const W: usize, const H: usize> {
    /// The first layer.
    first: Layer<T, I, W>,
    /// The hidden layers, in order.
    hidden: Vec<Layer<T, W, W>>,
    /// The last layer.
    last: Layer<T, W, O>,
}

/// The vector fed into each layer during one forward pass.
pub struct TrainingInputs<T, const I: usize, const W: usize> {
    /// The network's input, fed into the first layer.
    pub input: Vector<T, I>,
    /// The input of each hidden layer.
    pub hidden_inputs: Vec<Vector<T, W>>,
    /// The output of the last hidden layer, fed into the last layer.
    pub hidden_output: Vector<T, W>,
}

/// The gradient of every weight and bias of a network.
pub struct Gradient<T, const I: usize, const O: usize, const W: usize, const H: usize> {
    /// The first layer's gradient.
    pub first: LayerGradient<T, I, W>,
    /// Each hidden layer's gradient.
    pub hidden: Vec<LayerGradient<T, W, W>>,
    /// The last layer's gradient.
    pub last: LayerGradient<T, W, O>,
}

/// A neural network: something that turns `I` inputs into `O` outputs.
pub trait Network<T: Real, A: Activator<T>, const I: usize, const O: usize> {
    /// The network's parameters are consistent.
    spec fn ready(&self) -> bool;

    /// The network's output for `x`.
    spec fn spec_evaluate(&self, x: Seq<T>, activator: &A) -> Seq<T>;

    /// Evaluates the network on `inputs`.
    fn evaluate(&self, inputs: &Vector<T, I>, activator: &A) -> (r: Vector<T, O>)
        requires
            self.ready(),
            inputs.wf(),
        ensures
            r.wf(),
            r@ == self.spec_evaluate(inputs@, activator),
    ;
}

/// A network that can be trained: it records what a forward pass fed into
/// its parts, backpropagates a loss gradient through them, and takes a step.
pub trait TrainableNetwork<T: Real, A: Activator<T>, const I: usize, const O: usize>: Network<
    T,
    A,
    I,
    O,
> + Sized {
    /// What a forward pass records for backpropagation.
    type LayerInputs;

    /// The gradient of the network's parameters.
    type Gradient: ValueSet<T>;

    /// `data` is what a forward pass from `x` records.
    spec fn spec_records(&self, x: Seq<T>, activator: &A, data: Self::LayerInputs) -> bool;

    /// `data` has the shapes that backpropagation needs.
    spec fn spec_fits(&self, data: Self::LayerInputs) -> bool;

    /// For recorded inputs `data` and the loss gradient `l` with respect to
    /// the outputs, `g` is the gradient of the parameters and `input_loss`
    /// the loss gradient with respect to the inputs.
    spec fn spec_gradient(
        &self,
        data: Self::LayerInputs,
        activator: &A,
        l: Seq<T>,
        g: Self::Gradient,
        input_loss: Seq<T>,
    ) -> bool;

    /// `self` is `before` with `nudge` added to its parameters.
    spec fn spec_nudged(&self, before: Self, nudge: Self::Gradient) -> bool;

    /// The same pass as `evaluate`, also returning what backpropagation needs.
    fn evaluate_training(&self, inputs: Vector<T, I>, activator: &A) -> (r: (
        Vector<T, O>,
        Self::LayerInputs,
    ))
        requires
            self.ready(),
            inputs.wf(),
        ensures
            r.0.wf(),
            r.0@ == self.spec_evaluate(inputs@, activator),
            self.spec_records(inputs@, activator, r.1),
            self.spec_fits(r.1),
    ;

    /// Backpropagates `output_loss_gradients`, the loss gradient with respect
    /// to the outputs, returning the gradient of the parameters and the loss
    /// gradient with respect to the inputs.
    fn get_gradient(
        &self,
        layer_inputs: &Self::LayerInputs,
        output_loss_gradients: Vector<T, O>,
        activator: &A,
    ) -> (r: (Self::Gradient, Vector<T, I>))
        requires
            self.ready(),
            self.spec_fits(*layer_inputs),
            output_loss_gradients.wf(),
        ensures
            r.0.shaped(),
            r.1.wf(),
            self.spec_gradient(*layer_inputs, activator, output_loss_gradients@, r.0, r.1@),
    ;

    /// Adds `nudge` to the network's parameters.
    fn apply_nudge(&mut self, nudge: Self::Gradient)
        requires
            old(self).ready(),
            nudge.shaped(),
        ensures
            final(self).ready(),
            final(self).spec_nudged(*old(self), nudge),
    ;
}

impl<T: Real, const I: usize, const O: usize, const W: usize, const H: usize> SimpleNetwork<
    T,
    I,
    O,
    W,
    H,
> {
    /// The first layer.
    pub closed spec fn spec_first(&self) -> Layer<T, I, W> {
        self.first
    }

    /// The hidden layers.
    pub closed spec fn spec_hidden(&self) -> Seq<Layer<T, W, W>> {
        self.hidden@
    }

    /// The last layer.
    pub closed spec fn spec_last(&self) -> Layer<T, W, O> {
        self.last
    }

    /// Every layer is well formed and there are `H` hidden layers.
    pub open spec fn wf(&self) -> bool {
        &&& self.spec_first().wf()
        &&& self.spec_last().wf()
        &&& self.spec_hidden().len() == H
        &&& forall|k: int| 0 <= k < H ==> (#[trigger] self.spec_hidden()[k]).wf()
    }

    /// The input of hidden layer `k` (for `k == H`, of the last layer).
    pub open spec fn spec_hidden_input<A: Activator<T>>(&self, x: Seq<T>, activator: &A, k: nat) -> Seq<T> {
        hidden_pass(self.spec_hidden(), self.spec_first().spec_through(x, activator), activator, k)
    }

    /// The network's output for `x`.
    pub open spec fn spec_output<A: Activator<T>>(&self, x: Seq<T>, activator: &A) -> Seq<T> {
        self.spec_last().spec_through(self.spec_hidden_input(x, activator, H as nat), activator)
    }

    /// The inputs recorded by a forward pass from `x`.
    pub open spec fn records<A: Activator<T>>(
        &self,
        x: Seq<T>,
        activator: &A,
        data: TrainingInputs<T, I, W>,
    ) -> bool {
        &&& data.input.wf()
        &&& data.hidden_output.wf()
        &&& data.input@ == x
        &&& data.hidden_inputs@.len() == H
        &&& forall|k: int|
            0 <= k < H ==> (#[trigger] data.hidden_inputs@[k]).wf() && data.hidden_inputs@[k]@
                == self.spec_hidden_input(x, activator, k as nat)
        &&& data.hidden_output@ == self.spec_hidden_input(x, activator, H as nat)
    }

    /// This network is `before` with each layer's component of `nudge`
    /// added to that layer's weights and biases.
    pub open spec fn is_nudge_of(&self, before: Self, nudge: Gradient<T, I, O, W, H>) -> bool {
        &&& self.wf()
        &&& self.spec_first().is_shift_of(before.spec_first(), nudge.first)
        &&& self.spec_last().is_shift_of(before.spec_last(), nudge.last)
        &&& forall|k: int|
            0 <= k < H ==> (#[trigger] self.spec_hidden()[k]).is_shift_of(
                before.spec_hidden()[k],
                nudge.hidden@[k],
            )
    }

    /// A network of the given layers; `None` unless there are exactly `H` hidden layers.
    pub fn new(first: Layer<T, I, W>, hidden: Vec<Layer<T, W, W>>, last: Layer<T, W, O>) -> (r:
        Option<Self>)
        requires
            first.wf(),
            last.wf(),
            forall|k: int| 0 <= k < hidden@.len() ==> (#[trigger] hidden@[k]).wf(),
        ensures
            r is Some <==> hidden@.len() == H,
            r matches Some(n) ==> n.wf() && n.spec_first() == first && n.spec_hidden() == hidden@
                && n.spec_last() == last,
    {
        if hidden.len() == H {
            Some(SimpleNetwork { first, hidden, last })
        } else {
            None
        }
    }

    /// The first layer.
    pub fn first(&self) -> (r: &Layer<T, I, W>)
        ensures
            *r == self.spec_first(),
    {
        &self.first
    }

    /// The hidden layers.
    pub fn hidden(&self) -> (r: &Vec<Layer<T, W, W>>)
        ensures
            r@ == self.spec_hidden(),
    {
        &self.hidden
    }

    /// The last layer.
    pub fn last(&self) -> (r: &Layer<T, W, O>)
        ensures
            *r == self.spec_last(),
    {
        &self.last
    }
    /// `data` holds a vector of the right size for each layer's input.
    pub open spec fn fits(&self, data: TrainingInputs<T, I, W>) -> bool {
        &&& data.input.wf()
        &&& data.hidden_output.wf()
        &&& data.hidden_inputs@.len() == H
        &&& forall|k: int| 0 <= k < H ==> (#[trigger] data.hidden_inputs@[k]).wf()
    }

    /// The loss gradient with respect to the input of hidden layer `k` (for
    /// `k >= H`, of the last layer), given the recorded inputs and the loss
    /// gradient `l` with respect to the outputs.
    pub open spec fn spec_upstream<A: Activator<T>>(
        &self,
        data: TrainingInputs<T, I, W>,
        activator: &A,
        l: Seq<T>,
        k: nat,
    ) -> Seq<T>
        decreases H - k,
    {
        if k >= H {
            self.spec_last().spec_input_loss(data.hidden_output@, activator, l)
        } else {
            self.spec_hidden()[k as int].spec_input_loss(
                data.hidden_inputs@[k as int]@,
                activator,
                self.spec_upstream(data, activator, l, k + 1),
            )
        }
    }

    /// `g` is the network's gradient for the recorded inputs `data` and the
    /// loss gradient `l` with respect to the outputs.
    pub open spec fn is_gradient_of<A: Activator<T>>(
        &self,
        g: Gradient<T, I, O, W, H>,
        data: TrainingInputs<T, I, W>,
        activator: &A,
        l: Seq<T>,
    ) -> bool {
        &&& self.spec_last().is_gradient_of(g.last, data.hidden_output@, activator, l)
        &&& g.hidden@.len() == H
        &&& forall|k: int|
            0 <= k < H ==> self.spec_hidden()[k].is_gradient_of(
                #[trigger] g.hidden@[k],
                data.hidden_inputs@[k]@,
                activator,
                self.spec_upstream(data, activator, l, (k + 1) as nat),
            )
        &&& self.spec_first().is_gradient_of(
            g.first,
            data.input@,
            activator,
            self.spec_upstream(data, activator, l, 0),
        )
    }
    /// Adds each layer's component of `nudge` to that layer's weights and biases.
    pub fn apply_nudge(&mut self, nudge: Gradient<T, I, O, W, H>)
        requires
            old(self).wf(),
            nudge.shaped(),
        ensures
            final(self).is_nudge_of(*old(self), nudge),
    {
        let ghost before = self.hidden@;
        let ghost shifts_before = nudge.hidden@;
        let Gradient { first, hidden: mut shifts, last } = nudge;
        self.first.apply_shifts(first.weight_gradient, first.bias_gradient);
        self.last.apply_shifts(last.weight_gradient, last.bias_gradient);
        let mut layers: Vec<Layer<T, W, W>> = Vec::new();
        core::mem::swap(&mut self.hidden, &mut layers);
        // shifted layers, from the last one back to the first
        let mut reversed: Vec<Layer<T, W, W>> = Vec::new();
        while layers.len() > 0
            invariant
                layers@.len() == shifts@.len(),
                layers@.len() + reversed@.len() == H,
                before.len() == H,
                shifts_before.len() == H,
                layers@ == before.take(layers@.len() as int),
                shifts@ == shifts_before.take(shifts@.len() as int),
                forall|k: int| 0 <= k < H ==> (#[trigger] before[k]).wf(),
                forall|k: int|
                    0 <= k < H ==> (#[trigger] shifts_before[k]).weight_gradient.wf()
                        && shifts_before[k].bias_gradient.wf(),
                forall|j: int|
                    0 <= j < reversed@.len() ==> (#[trigger] reversed@[j]).is_shift_of(
                        before[H - 1 - j],
                        shifts_before[H - 1 - j],
                    ),
            decreases layers@.len(),
        {
            let mut layer = layers.pop().unwrap();
            let shift = shifts.pop().unwrap();
            layer.apply_shifts(shift.weight_gradient, shift.bias_gradient);
            reversed.push(layer);
        }
        while reversed.len() > 0
            invariant
                reversed@.len() + self.hidden@.len() == H,
                before.len() == H,
                shifts_before.len() == H,
                forall|j: int|
                    0 <= j < reversed@.len() ==> (#[trigger] reversed@[j]).is_shift_of(
                        before[H - 1 - j],
                        shifts_before[H - 1 - j],
                    ),
                forall|m: int|
                    0 <= m < self.hidden@.len() ==> (#[trigger] self.hidden@[m]).is_shift_of(
                        before[m],
                        shifts_before[m],
                    ),
                self.first.wf(),
                self.last.wf(),
                self.first.is_shift_of(old(self).first, nudge.first),
                self.last.is_shift_of(old(self).last, nudge.last),
            decreases reversed@.len(),
        {
            let layer = reversed.pop().unwrap();
            self.hidden.push(layer);
        }
    }

    /// A network whose layers are each made by `Layer::random`.
    pub fn random<R: UnitSource<T>>(rng: &mut R) -> (r: Self)
        ensures
            r.wf(),
            r.spec_first().is_centred_draw(),
            r.spec_last().is_centred_draw(),
            forall|k: int| 0 <= k < H ==> (#[trigger] r.spec_hidden()[k]).is_centred_draw(),
    {
        let first = Layer::random(rng);
        let mut hidden: Vec<Layer<T, W, W>> = Vec::new();
        let mut k: usize = 0;
        while k < H
            invariant
                k <= H,
                hidden@.len() == k,
                forall|j: int| 0 <= j < k ==> (#[trigger] hidden@[j]).is_centred_draw(),
            decreases H - k,
        {
            hidden.push(Layer::random(rng));
            k = k + 1;
        }
        let last = Layer::random(rng);
        SimpleNetwork { first, hidden, last }
    }
}

impl<
    T: Real,
    A: Activator<T>,
    const I: usize,
    const O: usize,
    const W: usize,
    const H: usize,
> Network<T, A, I, O> for SimpleNetwork<T, I, O, W, H> {
    open spec fn ready(&self) -> bool {
        self.wf()
    }

    open spec fn spec_evaluate(&self, x: Seq<T>, activator: &A) -> Seq<T> {
        self.spec_output(x, activator)
    }

    /// Feeds `inputs` through the first layer, every hidden layer in order,
    /// then the last layer.
    fn evaluate(&self, inputs: &Vector<T, I>, activator: &A) -> (r: Vector<T, O>) {
        let mut current = self.first.through(inputs, activator);
        let mut k: usize = 0;
        while k < self.hidden.len()
            invariant
                self.wf(),
                k <= H,
                current.wf(),
                current@ == self.spec_hidden_input(inputs@, activator, k as nat),
            decreases H - k,
        {
            current = self.hidden[k].through(&current, activator);
            k = k + 1;
        }
        self.last.through(&current, activator)
    }
}

impl<
    T: Real,
    A: Activator<T>,
    const I: usize,
    const O: usize,
    const W: usize,
    const H: usize,
> TrainableNetwork<T, A, I, O> for SimpleNetwork<T, I, O, W, H> {
    type LayerInputs = TrainingInputs<T, I, W>;

    type Gradient = Gradient<T, I, O, W, H>;

    open spec fn spec_records(&self, x: Seq<T>, activator: &A, data: TrainingInputs<T, I, W>) -> bool {
        self.records(x, activator, data)
    }

    open spec fn spec_fits(&self, data: TrainingInputs<T, I, W>) -> bool {
        self.fits(data)
    }

    open spec fn spec_gradient(
        &self,
        data: TrainingInputs<T, I, W>,
        activator: &A,
        l: Seq<T>,
        g: Gradient<T, I, O, W, H>,
        input_loss: Seq<T>,
    ) -> bool {
        &&& self.is_gradient_of(g, data, activator, l)
        &&& input_loss == self.spec_first().spec_input_loss(
            data.input@,
            activator,
            self.spec_upstream(data, activator, l, 0),
        )
    }

    open spec fn spec_nudged(&self, before: Self, nudge: Gradient<T, I, O, W, H>) -> bool {
        self.is_nudge_of(before, nudge)
    }

    /// Records the input of every layer on the way.
    fn evaluate_training(&self, inputs: Vector<T, I>, activator: &A) -> (r: (
        Vector<T, O>,
        TrainingInputs<T, I, W>,
    )) {
        let mut current = self.first.through(&inputs, activator);
        let mut hidden_inputs: Vec<Vector<T, W>> = Vec::new();
        let mut k: usize = 0;
        while k < self.hidden.len()
            invariant
                self.wf(),
                inputs.wf(),
                k <= H,
                current.wf(),
                current@ == self.spec_hidden_input(inputs@, activator, k as nat),
                hidden_inputs@.len() == k,
                forall|j: int|
                    0 <= j < k ==> (#[trigger] hidden_inputs@[j]).wf() && hidden_inputs@[j]@
                        == self.spec_hidden_input(inputs@, activator, j as nat),
            decreases H - k,
        {
            let next = self.hidden[k].through(&current, activator);
            hidden_inputs.push(current);
            current = next;
            k = k + 1;
        }
        let output = self.last.through(&current, activator);
        (output, TrainingInputs { input: inputs, hidden_inputs, hidden_output: current })
    }

    /// Runs `Layer::backpropogate` from the last layer back to the first,
    /// each layer's input loss gradient becoming the output loss gradient of
    /// the layer before it.
    fn get_gradient(
        &self,
        layer_inputs: &TrainingInputs<T, I, W>,
        output_loss_gradients: Vector<T, O>,
        activator: &A,
    ) -> (r: (Gradient<T, I, O, W, H>, Vector<T, I>)) {
        let data = layer_inputs;
        let ghost l = output_loss_gradients@;
        let (last, mut current) = self.last.backpropogate(
            output_loss_gradients,
            &data.hidden_output,
            activator,
        );
        // gradients of the hidden layers, from the last one back to the first
        let mut collected: Vec<LayerGradient<T, W, W>> = Vec::new();
        let mut k: usize = self.hidden.len();
        while k > 0
            invariant
                self.wf(),
                self.fits(*data),
                k <= H,
                current.wf(),
                current@ == self.spec_upstream(*data, activator, l, k as nat),
                collected@.len() == H - k,
                forall|j: int|
                    0 <= j < H - k ==> self.spec_hidden()[H - 1 - j].is_gradient_of(
                        #[trigger] collected@[j],
                        data.hidden_inputs@[H - 1 - j]@,
                        activator,
                        self.spec_upstream(*data, activator, l, (H - j) as nat),
                    ),
            decreases k,
        {
            k = k - 1;
            let (g, next) = self.hidden[k].backpropogate(current, &data.hidden_inputs[k], activator);
            collected.push(g);
            current = next;
        }
        let mut hidden: Vec<LayerGradient<T, W, W>> = Vec::new();
        while collected.len() > 0
            invariant
                self.wf(),
                self.fits(*data),
                collected@.len() + hidden@.len() == H,
                forall|j: int|
                    0 <= j < collected@.len() ==> self.spec_hidden()[H - 1 - j].is_gradient_of(
                        #[trigger] collected@[j],
                        data.hidden_inputs@[H - 1 - j]@,
                        activator,
                        self.spec_upstream(*data, activator, l, (H - j) as nat),
                    ),
                forall|m: int|
                    0 <= m < hidden@.len() ==> self.spec_hidden()[m].is_gradient_of(
                        #[trigger] hidden@[m],
                        data.hidden_inputs@[m]@,
                        activator,
                        self.spec_upstream(*data, activator, l, (m + 1) as nat),
                    ),
            decreases collected@.len(),
        {
            let g = collected.pop().unwrap();
            hidden.push(g);
        }
        let (first, input_loss) = self.first.backpropogate(current, &data.input, activator);
        (Gradient { first, hidden, last }, input_loss)
    }

    /// Adds each layer's component of `nudge` to that layer's weights and biases.
    fn apply_nudge(&mut self, nudge: Gradient<T, I, O, W, H>) {
        SimpleNetwork::apply_nudge(self, nudge)
    }
}

impl<T: Real, const I: usize, const O: usize, const W: usize, const H: usize> Gradient<
    T,
    I,
    O,
    W,
    H,
> {
    /// The elementwise mean of the gradients in `collection`.
    pub fn mean(collection: &[Self]) -> (r: Self)
        requires
            forall|k: int| 0 <= k < collection@.len() ==> (#[trigger] collection@[k]).shaped(),
        ensures
            r.shaped(),
            forall|i: int|
                0 <= i < Self::leaf_count() ==> #[trigger] r.leaves()[i] == crate::valueset::leaf_sum(
                    collection@,
                    i,
                    collection@.len(),
                ).spec_div(crate::scalar::count_of::<T>(collection@.len())),
    {
        crate::valueset::mean(collection)
    }
}

/// A network that can be made with random parameters.
pub trait RandomisableNetwork<T: Real>: Sized {
    /// The network is well formed and each of its parameters is what the
    /// network's rule makes of a draw in `[0, 1]`.
    spec fn is_random_draw(&self) -> bool;

    /// A network whose parameters are drawn from `rng`.
    fn random<R: UnitSource<T>>(rng: &mut R) -> (r: Self)
        ensures
            r.is_random_draw(),
    ;
}

impl<T: Real, const I: usize, const O: usize, const W: usize, const H: usize> RandomisableNetwork<
    T,
> for SimpleNetwork<T, I, O, W, H> {
    /// Every weight and bias is `u * 2 - 1` for a draw `u` in `[0, 1]`.
    open spec fn is_random_draw(&self) -> bool {
        &&& self.wf()
        &&& self.spec_first().is_centred_draw()
        &&& self.spec_last().is_centred_draw()
        &&& forall|k: int| 0 <= k < H ==> (#[trigger] self.spec_hidden()[k]).is_centred_draw()
    }

    fn random<R: UnitSource<T>>(rng: &mut R) -> (r: Self) {
        SimpleNetwork::random(rng)
    }
}

/// Position `idx` of `h` blocks of `n` lies in block `idx / n` at offset `idx % n`.
proof fn lemma_block_index(idx: int, n: int, h: int)
    requires
        0 <= idx < h * n,
        0 <= n,
    ensures
        n > 0,
        0 <= idx / n < h,
        0 <= idx % n < n,
        idx == (idx / n) * n + idx % n,
{
    if n == 0 {
        assert(h * n == 0) by (nonlinear_arith)
            requires
                n == 0,
        ;
    }
    lemma_fundamental_div_mod(idx, n);
    lemma_mod_bound(idx, n);
    let k = idx / n;
    let t = idx % n;
    assert(idx == k * n + t) by (nonlinear_arith)
        requires
            idx == n * k + t,
    ;
    assert(0 <= k < h) by (nonlinear_arith)
        requires
            idx == k * n + t,
            0 <= t < n,
            0 <= idx < h * n,
    ;
}

/// Offset `t` of block `k` is position `k * n + t`.
proof fn lemma_block_index_converse(k: int, t: int, n: int, h: int)
    requires
        0 <= k < h,
        0 <= t < n,
    ensures
        (k * n + t) / n == k,
        (k * n + t) % n == t,
        0 <= k * n + t < h * n,
{
    lemma_fundamental_div_mod_converse(k * n + t, n, k, t);
    crate::matrix::lemma_flat_index(k, t, h, n);
}

/// The leaves of the hidden layers' gradients, one block of `n` after another.
pub open spec fn hidden_leaves<T: Real, const W: usize>(hidden: Seq<LayerGradient<T, W, W>>) -> Seq<T> {
    let n = (W * W + W) as int;
    Seq::new((hidden.len() * n) as nat, |idx: int| hidden[idx / n].leaves()[idx % n])
}

impl<T: Real, const I: usize, const O: usize, const W: usize, const H: usize> ValueSet<T> for Gradient<
    T,
    I,
    O,
    W,
    H,
> {
    open spec fn shaped(&self) -> bool {
        &&& self.first.shaped()
        &&& self.last.shaped()
        &&& self.hidden@.len() == H
        &&& forall|k: int| 0 <= k < H ==> (#[trigger] self.hidden@[k]).shaped()
    }

    open spec fn leaves(&self) -> Seq<T> {
        self.first.leaves() + hidden_leaves(self.hidden@) + self.last.leaves()
    }

    open spec fn leaf_count() -> nat {
        ((W * I + W) + H * (W * W + W) + (O * W + O)) as nat
    }

    proof fn lemma_leaf_count(&self) {
        assert(hidden_leaves(self.hidden@).len() == H * (W * W + W));
    }

    fn unary_operation<F: Fn(&T) -> T>(&self, f: &F) -> (r: Self) {
        let ghost nf = (W * I + W) as int;
        let ghost n = (W * W + W) as int;
        let ghost nh = H * n;
        proof {
            self.lemma_leaf_count();
            assert forall|i: int| 0 <= i < nf implies call_requires(*f, (&self.first.leaves()[i],)) by {
                assert(self.leaves()[i] == self.first.leaves()[i]);
            }
            assert forall|i: int| 0 <= i < O * W + O implies call_requires(
                *f,
                (&self.last.leaves()[i],),
            ) by {
                assert(self.leaves()[nf + nh + i] == self.last.leaves()[i]);
            }
        }
        let first = self.first.unary_operation(f);
        let last = self.last.unary_operation(f);
        let mut hidden: Vec<LayerGradient<T, W, W>> = Vec::new();
        let mut k: usize = 0;
        while k < self.hidden.len()
            invariant
                self.shaped(),
                k <= H,
                n == W * W + W,
                nf == W * I + W,
                nh == H * n,
                forall|i: int| 0 <= i < Self::leaf_count() ==> call_requires(*f, (&self.leaves()[i],)),
                hidden@.len() == k,
                forall|j: int|
                    0 <= j < k ==> (#[trigger] hidden@[j]).shaped() && forall|t: int|
                        0 <= t < n ==> call_ensures(
                            *f,
                            (&self.hidden@[j].leaves()[t],),
                            #[trigger] hidden@[j].leaves()[t],
                        ),
            decreases H - k,
        {
            proof {
                assert forall|t: int| 0 <= t < n implies call_requires(
                    *f,
                    (&self.hidden@[k as int].leaves()[t],),
                ) by {
                    lemma_block_index_converse(k as int, t, n, H as int);
                    assert(self.leaves()[nf + k * n + t] == hidden_leaves(self.hidden@)[k * n + t]);
                }
            }
            let g = self.hidden[k].unary_operation(f);
            hidden.push(g);
            k = k + 1;
        }
        let r = Gradient { first, hidden, last };
        proof {
            assert forall|i: int| 0 <= i < Self::leaf_count() implies call_ensures(
                *f,
                (&self.leaves()[i],),
                #[trigger] r.leaves()[i],
            ) by {
                if i < nf {
                    assert(r.leaves()[i] == first.leaves()[i]);
                    assert(self.leaves()[i] == self.first.leaves()[i]);
                } else if i < nf + nh {
                    let idx = i - nf;
                    lemma_block_index(idx, n, H as int);
                    assert(r.leaves()[i] == hidden@[idx / n].leaves()[idx % n]);
                    assert(self.leaves()[i] == self.hidden@[idx / n].leaves()[idx % n]);
                } else {
                    assert(r.leaves()[i] == last.leaves()[i - nf - nh]);
                    assert(self.leaves()[i] == self.last.leaves()[i - nf - nh]);
                }
            }
        }
        r
    }

    fn binary_operation<F: Fn(&T, &T) -> T>(&self, other: &Self, f: &F) -> (r: Self) {
        let ghost nf = (W * I + W) as int;
        let ghost n = (W * W + W) as int;
        let ghost nh = H * n;
        proof {
            self.lemma_leaf_count();
            other.lemma_leaf_count();
            assert forall|i: int| 0 <= i < nf implies call_requires(
                *f,
                (&self.first.leaves()[i], &other.first.leaves()[i]),
            ) by {
                assert(self.leaves()[i] == self.first.leaves()[i]);
                assert(other.leaves()[i] == other.first.leaves()[i]);
            }
            assert forall|i: int| 0 <= i < O * W + O implies call_requires(
                *f,
                (&self.last.leaves()[i], &other.last.leaves()[i]),
            ) by {
                assert(self.leaves()[nf + nh + i] == self.last.leaves()[i]);
                assert(other.leaves()[nf + nh + i] == other.last.leaves()[i]);
            }
        }
        let first = self.first.binary_operation(&other.first, f);
        let last = self.last.binary_operation(&other.last, f);
        let mut hidden: Vec<LayerGradient<T, W, W>> = Vec::new();
        let mut k: usize = 0;
        while k < self.hidden.len()
            invariant
                self.shaped(),
                other.shaped(),
                k <= H,
                n == W * W + W,
                nf == W * I + W,
                nh == H * n,
                forall|i: int|
                    0 <= i < Self::leaf_count() ==> call_requires(
                        *f,
                        (&self.leaves()[i], &other.leaves()[i]),
                    ),
                hidden@.len() == k,
                forall|j: int|
                    0 <= j < k ==> (#[trigger] hidden@[j]).shaped() && forall|t: int|
                        0 <= t < n ==> call_ensures(
                            *f,
                            (&self.hidden@[j].leaves()[t], &other.hidden@[j].leaves()[t]),
                            #[trigger] hidden@[j].leaves()[t],
                        ),
            decreases H - k,
        {
            proof {
                assert forall|t: int| 0 <= t < n implies call_requires(
                    *f,
                    (&self.hidden@[k as int].leaves()[t], &other.hidden@[k as int].leaves()[t]),
                ) by {
                    lemma_block_index_converse(k as int, t, n, H as int);
                    assert(self.leaves()[nf + k * n + t] == hidden_leaves(self.hidden@)[k * n + t]);
                    assert(other.leaves()[nf + k * n + t] == hidden_leaves(other.hidden@)[k * n + t]);
                }
            }
            let g = self.hidden[k].binary_operation(&other.hidden[k], f);
            hidden.push(g);
            k = k + 1;
        }
        let r = Gradient { first, hidden, last };
        proof {
            assert forall|i: int| 0 <= i < Self::leaf_count() implies call_ensures(
                *f,
                (&self.leaves()[i], &other.leaves()[i]),
                #[trigger] r.leaves()[i],
            ) by {
                if i < nf {
                    assert(r.leaves()[i] == first.leaves()[i]);
                    assert(self.leaves()[i] == self.first.leaves()[i]);
                    assert(other.leaves()[i] == other.first.leaves()[i]);
                } else if i < nf + nh {
                    let idx = i - nf;
                    lemma_block_index(idx, n, H as int);
                    assert(r.leaves()[i] == hidden@[idx / n].leaves()[idx % n]);
                    assert(self.leaves()[i] == self.hidden@[idx / n].leaves()[idx % n]);
                    assert(other.leaves()[i] == other.hidden@[idx / n].leaves()[idx % n]);
                } else {
                    assert(r.leaves()[i] == last.leaves()[i - nf - nh]);
                    assert(self.leaves()[i] == self.last.leaves()[i - nf - nh]);
                    assert(other.leaves()[i] == other.last.leaves()[i - nf - nh]);
                }
            }
        }
        r
    }

    fn all(v: T) -> (r: Self) {
        let ghost nf = (W * I + W) as int;
        let ghost n = (W * W + W) as int;
        let ghost nh = H * n;
        let first = LayerGradient::all(v);
        let last = LayerGradient::all(v);
        let mut hidden: Vec<LayerGradient<T, W, W>> = Vec::new();
        let mut k: usize = 0;
        while k < H
            invariant
                k <= H,
                n == W * W + W,
                hidden@.len() == k,
                forall|j: int|
                    0 <= j < k ==> (#[trigger] hidden@[j]).shaped() && forall|t: int|
                        0 <= t < n ==> #[trigger] hidden@[j].leaves()[t] == v,
            decreases H - k,
        {
            hidden.push(LayerGradient::all(v));
            k = k + 1;
        }
        let r = Gradient { first, hidden, last };
        proof {
            assert forall|i: int| 0 <= i < Self::leaf_count() implies #[trigger] r.leaves()[i] == v by {
                if i < nf {
                    assert(r.leaves()[i] == first.leaves()[i]);
                } else if i < nf + nh {
                    let idx = i - nf;
                    lemma_block_index(idx, n, H as int);
                    assert(r.leaves()[i] == hidden@[idx / n].leaves()[idx % n]);
                } else {
                    assert(r.leaves()[i] == last.leaves()[i - nf - nh]);
                }
            }
        }
        r
    }
}

/// The output of a network depends on nothing but its layers, the input and
/// the activator: networks with the same layers give the same output for the
/// same input.
pub proof fn lemma_evaluate_deterministic<
    T: Real,
    A: Activator<T>,
    const I: usize,
    const O: usize,
    const W: usize,
    const H: usize,
>(a: SimpleNetwork<T, I, O, W, H>, b: SimpleNetwork<T, I, O, W, H>, x: Seq<T>, activator: &A)
    requires
        a.spec_first() == b.spec_first(),
        a.spec_hidden() == b.spec_hidden(),
        a.spec_last() == b.spec_last(),
    ensures
        a.spec_output(x, activator) == b.spec_output(x, activator),
{
}

/// A training pass agrees with `evaluate`: the last layer applied to the
/// recorded input of the last layer gives the network's output.
pub proof fn lemma_training_pass_matches_evaluate<
    T: Real,
    A: Activator<T>,
    const I: usize,
    const O: usize,
    const W: usize,
    const H: usize,
>(
    network: SimpleNetwork<T, I, O, W, H>,
    x: Seq<T>,
    activator: &A,
    data: TrainingInputs<T, I, W>,
)
    requires
        network.records(x, activator, data),
    ensures
        network.spec_last().spec_through(data.hidden_output@, activator) == network.spec_output(
            x,
            activator,
        ),
        data.input@ == x,
{
}

} // verus!
