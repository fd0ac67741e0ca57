use vstd::prelude::*;

use crate::activators::Activator;
use crate::matrix::{dot, dot_prefix, lemma_vector_col, Matrix, Vector};
use crate::chain::ChainedNetwork;
use crate::network::{Network, TrainableNetwork};
use crate::scalar::Real;

verus! {

/// `0 + s[0] + ... + s[k-1]`.
pub open spec fn sum_prefix<T: Real>(s: Seq<T>, k: nat) -> T
    decreases k,
{
    if k == 0 {
        T::spec_zero()
    } else {
        sum_prefix(s, (k - 1) as nat).spec_add(s[k - 1])
    }
}

/// The sum of the entries of `s`.
pub open spec fn sum<T: Real>(s: Seq<T>) -> T {
    sum_prefix(s, s.len())
}

/// The Euclidean norm of `s`.
pub open spec fn norm<T: Real>(s: Seq<T>) -> T {
    dot(s, s).spec_sqrt()
}

/// `e^x` for each entry.
pub open spec fn exp_all<T: Real>(s: Seq<T>) -> Seq<T> {
    Seq::new(s.len(), |i: int| s[i].spec_exp())
}

/// Each entry divided by `d`.
pub open spec fn divided<T: Real>(s: Seq<T>, d: T) -> Seq<T> {
    Seq::new(s.len(), |i: int| s[i].spec_div(d))
}

/// `s` divided by its Euclidean norm.
pub open spec fn normalized<T: Real>(s: Seq<T>) -> Seq<T> {
    divided(s, norm(s))
}

/// `s` divided by the sum of its entries.
pub open spec fn taxicab_normalized<T: Real>(s: Seq<T>) -> Seq<T> {
    divided(s, sum(s))
}

/// Row `j` of `I - o o^T`.
pub open spec fn projection_row<T: Real>(o: Seq<T>, j: int) -> Seq<T> {
    Seq::new(
        o.len(),
        |t: int|
            if t == j {
                T::spec_one()
            } else {
                T::spec_zero()
            }.spec_sub(o[j].spec_mul(o[t])),
    )
}

/// The gradient of `normalized` at `x` applied to the loss gradient `l`:
/// `(I - o o^T) * l / |x|` with `o` the normalized `x`.
pub open spec fn normalize_gradient<T: Real>(x: Seq<T>, l: Seq<T>) -> Seq<T> {
    Seq::new(
        x.len(),
        |j: int| dot(projection_row(normalized(x), j), l).spec_div(norm(x)),
    )
}

/// The gradient of `taxicab_normalized` at `x` applied to the loss gradient
/// `l`: `l / s - (x . l) / s^2` with `s` the sum of `x` (the transposed
/// Jacobian of `x / s`, whose entry `(i, j)` is `[i == j] / s - x[i] / s^2`,
/// times `l`).
pub open spec fn taxicab_gradient<T: Real>(x: Seq<T>, l: Seq<T>) -> Seq<T> {
    let s = sum(x);
    Seq::new(
        x.len(),
        |i: int| l[i].spec_div(s).spec_sub(dot(x, l).spec_div(s.spec_mul(s))),
    )
}

/// The sum of the entries of `v`.
fn sum_of<T: Real, const N: usize>(v: &Vector<T, N>) -> (r: T)
    requires
        v.wf(),
    ensures
        r == sum(v@),
{
    proof {
        lemma_vector_col(v);
    }
    let mut total = T::zero();
    let mut k: usize = 0;
    while k < N
        invariant
            k <= N,
            v.wf(),
            total == sum_prefix(v@, k as nat),
        decreases N - k,
    {
        total = total.add(v.get(k, 0));
        k = k + 1;
    }
    total
}

/// The dot product of `a` and `b`.
fn dot_of<T: Real, const N: usize>(a: &Vector<T, N>, b: &Vector<T, N>) -> (r: T)
    requires
        a.wf(),
        b.wf(),
    ensures
        r == dot(a@, b@),
{
    proof {
        lemma_vector_col(a);
        lemma_vector_col(b);
    }
    let mut total = T::zero();
    let mut k: usize = 0;
    while k < N
        invariant
            k <= N,
            a.wf(),
            b.wf(),
            total == dot_prefix(a@, b@, k as nat),
        decreases N - k,
    {
        total = total.add(a.get(k, 0).mul(b.get(k, 0)));
        k = k + 1;
    }
    total
}

/// Each entry of `v` divided by `d`.
fn divide_all<T: Real, const N: usize>(v: &Vector<T, N>, d: T) -> (r: Vector<T, N>)
    requires
        v.wf(),
    ensures
        r.wf(),
        r@ == divided(v@, d),
{
    proof {
        lemma_vector_col(v);
    }
    let mut out: Vec<T> = Vec::new();
    let mut k: usize = 0;
    while k < N
        invariant
            k <= N,
            v.wf(),
            out@ == divided(v@, d).take(k as int),
        decreases N - k,
    {
        out.push(v.get(k, 0).div(d));
        k = k + 1;
        proof {
            assert(out@ =~= divided(v@, d).take(k as int));
        }
    }
    assert(out@ =~= divided(v@, d));
    Matrix::from_vec(out)
}

/// `e^x` for each entry of `v`.
fn exp_each<T: Real, const N: usize>(v: &Vector<T, N>) -> (r: Vector<T, N>)
    requires
        v.wf(),
    ensures
        r.wf(),
        r@ == exp_all(v@),
{
    proof {
        lemma_vector_col(v);
    }
    let mut out: Vec<T> = Vec::new();
    let mut k: usize = 0;
    while k < N
        invariant
            k <= N,
            v.wf(),
            out@ == exp_all(v@).take(k as int),
        decreases N - k,
    {
        out.push(v.get(k, 0).exp());
        k = k + 1;
        proof {
            assert(out@ =~= exp_all(v@).take(k as int));
        }
    }
    assert(out@ =~= exp_all(v@));
    Matrix::from_vec(out)
}

/// `a[i] * b[i]` for each entry.
pub open spec fn product_all<T: Real>(a: Seq<T>, b: Seq<T>) -> Seq<T> {
    Seq::new(a.len(), |i: int| a[i].spec_mul(b[i]))
}

/// Applies `e^x` to each input.
pub struct Exp;

impl<T: Real, A: Activator<T>, const N: usize> Network<T, A, N, N> for Exp {
    open spec fn ready(&self) -> bool {
        true
    }

    open spec fn spec_evaluate(&self, x: Seq<T>, activator: &A) -> Seq<T> {
        exp_all(x)
    }

    /// `e^x` for each entry of `inputs`; the activator plays no part.
    fn evaluate(&self, inputs: &Vector<T, N>, _activator: &A) -> (r: Vector<T, N>) {
        exp_each(inputs)
    }
}

impl<T: Real, A: Activator<T>, const N: usize> TrainableNetwork<T, A, N, N> for Exp {
    /// The outputs, which are also the derivatives.
    type LayerInputs = Vector<T, N>;

    type Gradient = ();

    open spec fn spec_records(&self, x: Seq<T>, activator: &A, data: Vector<T, N>) -> bool {
        data@ == exp_all(x)
    }

    open spec fn spec_fits(&self, data: Vector<T, N>) -> bool {
        data.wf()
    }

    open spec fn spec_gradient(
        &self,
        data: Vector<T, N>,
        activator: &A,
        l: Seq<T>,
        g: (),
        input_loss: Seq<T>,
    ) -> bool {
        input_loss == product_all(data@, l)
    }

    open spec fn spec_nudged(&self, before: Self, nudge: ()) -> bool {
        true
    }

    fn evaluate_training(&self, inputs: Vector<T, N>, _activator: &A) -> (r: (Vector<T, N>, Vector<T, N>)) {
        let res = exp_each(&inputs);
        let stored = res.clone();
        (res, stored)
    }

    /// The derivative of `e^x` is `e^x`: each recorded output times its loss gradient.
    fn get_gradient(
        &self,
        layer_inputs: &Vector<T, N>,
        output_loss_gradients: Vector<T, N>,
        _activator: &A,
    ) -> (r: ((), Vector<T, N>)) {
        proof {
            lemma_vector_col(layer_inputs);
            lemma_vector_col(&output_loss_gradients);
        }
        let mut out: Vec<T> = Vec::new();
        let mut k: usize = 0;
        while k < N
            invariant
                k <= N,
                layer_inputs.wf(),
                output_loss_gradients.wf(),
                out@ == product_all(layer_inputs@, output_loss_gradients@).take(k as int),
            decreases N - k,
        {
            out.push(layer_inputs.get(k, 0).mul(output_loss_gradients.get(k, 0)));
            k = k + 1;
            proof {
                assert(out@ =~= product_all(layer_inputs@, output_loss_gradients@).take(k as int));
            }
        }
        assert(out@ =~= product_all(layer_inputs@, output_loss_gradients@));
        ((), Matrix::from_vec(out))
    }

    /// Nothing to move: `Exp` has no parameters.
    fn apply_nudge(&mut self, nudge: ()) {
    }
}

/// Divides its inputs by their Euclidean norm.
pub struct Normalize;

impl<T: Real, A: Activator<T>, const N: usize> Network<T, A, N, N> for Normalize {
    open spec fn ready(&self) -> bool {
        true
    }

    open spec fn spec_evaluate(&self, x: Seq<T>, activator: &A) -> Seq<T> {
        normalized(x)
    }

    /// `inputs` divided by their Euclidean norm.
    fn evaluate(&self, inputs: &Vector<T, N>, _activator: &A) -> (r: Vector<T, N>) {
        let norm = dot_of(inputs, inputs).sqrt();
        divide_all(inputs, norm)
    }
}

impl<T: Real, A: Activator<T>, const N: usize> TrainableNetwork<T, A, N, N> for Normalize {
    /// The inputs.
    type LayerInputs = Vector<T, N>;

    type Gradient = ();

    open spec fn spec_records(&self, x: Seq<T>, activator: &A, data: Vector<T, N>) -> bool {
        data@ == x
    }

    open spec fn spec_fits(&self, data: Vector<T, N>) -> bool {
        data.wf()
    }

    open spec fn spec_gradient(
        &self,
        data: Vector<T, N>,
        activator: &A,
        l: Seq<T>,
        g: (),
        input_loss: Seq<T>,
    ) -> bool {
        input_loss == normalize_gradient(data@, l)
    }

    open spec fn spec_nudged(&self, before: Self, nudge: ()) -> bool {
        true
    }

    fn evaluate_training(&self, inputs: Vector<T, N>, activator: &A) -> (r: (Vector<T, N>, Vector<T, N>)) {
        (self.evaluate(&inputs, activator), inputs)
    }

    /// `(I - o o^T) * l / |x|`, `o` being the normalized inputs `x`.
    fn get_gradient(
        &self,
        layer_inputs: &Vector<T, N>,
        output_loss_gradients: Vector<T, N>,
        _activator: &A,
    ) -> (r: ((), Vector<T, N>)) {
        let norm = dot_of(layer_inputs, layer_inputs).sqrt();
        let output = divide_all(layer_inputs, norm);
        proof {
            lemma_vector_col(&output);
            lemma_vector_col(&output_loss_gradients);
        }
        let mut out: Vec<T> = Vec::new();
        let mut j: usize = 0;
        while j < N
            invariant
                j <= N,
                output.wf(),
                output@ == normalized(layer_inputs@),
                output_loss_gradients.wf(),
                norm == crate::operations::norm(layer_inputs@),
                out@ == normalize_gradient(layer_inputs@, output_loss_gradients@).take(j as int),
            decreases N - j,
        {
            let oj = output.get(j, 0);
            let mut acc = T::zero();
            let mut t: usize = 0;
            while t < N
                invariant
                    j < N,
                    t <= N,
                    output.wf(),
                    output_loss_gradients.wf(),
                    oj == output@[j as int],
                    acc == dot_prefix(
                        projection_row(output@, j as int),
                        output_loss_gradients@,
                        t as nat,
                    ),
                decreases N - t,
            {
                let identity = if t == j {
                    T::one()
                } else {
                    T::zero()
                };
                let entry = identity.sub(oj.mul(output.get(t, 0)));
                acc = acc.add(entry.mul(output_loss_gradients.get(t, 0)));
                t = t + 1;
            }
            out.push(acc.div(norm));
            j = j + 1;
            proof {
                assert(out@ =~= normalize_gradient(layer_inputs@, output_loss_gradients@).take(
                    j as int,
                ));
            }
        }
        assert(out@ =~= normalize_gradient(layer_inputs@, output_loss_gradients@));
        ((), Matrix::from_vec(out))
    }

    /// Nothing to move: `Normalize` has no parameters.
    fn apply_nudge(&mut self, nudge: ()) {
    }
}

/// Divides its inputs by their sum.
pub struct TaxicabNormalize;

impl<T: Real, A: Activator<T>, const N: usize> Network<T, A, N, N> for TaxicabNormalize {
    open spec fn ready(&self) -> bool {
        true
    }

    open spec fn spec_evaluate(&self, x: Seq<T>, activator: &A) -> Seq<T> {
        taxicab_normalized(x)
    }

    /// `inputs` divided by the sum of their entries.
    fn evaluate(&self, inputs: &Vector<T, N>, _activator: &A) -> (r: Vector<T, N>) {
        let total = sum_of(inputs);
        divide_all(inputs, total)
    }
}

impl<T: Real, A: Activator<T>, const N: usize> TrainableNetwork<T, A, N, N> for TaxicabNormalize {
    /// The inputs.
    type LayerInputs = Vector<T, N>;

    type Gradient = ();

    open spec fn spec_records(&self, x: Seq<T>, activator: &A, data: Vector<T, N>) -> bool {
        data@ == x
    }

    open spec fn spec_fits(&self, data: Vector<T, N>) -> bool {
        data.wf()
    }

    open spec fn spec_gradient(
        &self,
        data: Vector<T, N>,
        activator: &A,
        l: Seq<T>,
        g: (),
        input_loss: Seq<T>,
    ) -> bool {
        input_loss == taxicab_gradient(data@, l)
    }

    open spec fn spec_nudged(&self, before: Self, nudge: ()) -> bool {
        true
    }

    fn evaluate_training(&self, inputs: Vector<T, N>, activator: &A) -> (r: (Vector<T, N>, Vector<T, N>)) {
        (self.evaluate(&inputs, activator), inputs)
    }

    /// `l / s - (x . l) / s^2`, `s` being the sum of the inputs `x`.
    fn get_gradient(
        &self,
        layer_inputs: &Vector<T, N>,
        output_loss_gradients: Vector<T, N>,
        _activator: &A,
    ) -> (r: ((), Vector<T, N>)) {
        let input_sum = sum_of(layer_inputs);
        let product = dot_of(layer_inputs, &output_loss_gradients);
        let squared = input_sum.mul(input_sum);
        // the same for every entry: (x . l) / s^2
        let correction = product.div(squared);
        proof {
            lemma_vector_col(layer_inputs);
            lemma_vector_col(&output_loss_gradients);
        }
        let mut out: Vec<T> = Vec::new();
        let mut k: usize = 0;
        while k < N
            invariant
                k <= N,
                layer_inputs.wf(),
                output_loss_gradients.wf(),
                input_sum == sum(layer_inputs@),
                product == dot(layer_inputs@, output_loss_gradients@),
                correction == product.spec_div(input_sum.spec_mul(input_sum)),
                out@ == taxicab_gradient(layer_inputs@, output_loss_gradients@).take(k as int),
            decreases N - k,
        {
            let scaled = output_loss_gradients.get(k, 0).div(input_sum);
            out.push(scaled.sub(correction));
            k = k + 1;
            proof {
                assert(out@ =~= taxicab_gradient(layer_inputs@, output_loss_gradients@).take(
                    k as int,
                ));
            }
        }
        assert(out@ =~= taxicab_gradient(layer_inputs@, output_loss_gradients@));
        ((), Matrix::from_vec(out))
    }

    /// Nothing to move: `TaxicabNormalize` has no parameters.
    fn apply_nudge(&mut self, nudge: ()) {
    }
}

/// Softmax: `Exp` chained with `TaxicabNormalize`.
pub struct Softmax;

impl<T: Real, A: Activator<T>, const N: usize> Network<T, A, N, N> for Softmax {
    open spec fn ready(&self) -> bool {
        true
    }

    open spec fn spec_evaluate(&self, x: Seq<T>, activator: &A) -> Seq<T> {
        taxicab_normalized(exp_all(x))
    }

    /// `e^x` for each input, divided by the sum of those.
    fn evaluate(&self, inputs: &Vector<T, N>, activator: &A) -> (r: Vector<T, N>) {
        let chain: ChainedNetwork<Exp, TaxicabNormalize, N> = ChainedNetwork::chain(Exp, TaxicabNormalize);
        chain.evaluate(inputs, activator)
    }
}

impl<T: Real, A: Activator<T>, const N: usize> TrainableNetwork<T, A, N, N> for Softmax {
    /// What `Exp` and `TaxicabNormalize` recorded.
    type LayerInputs = (Vector<T, N>, Vector<T, N>);

    type Gradient = ();

    open spec fn spec_records(&self, x: Seq<T>, activator: &A, data: (Vector<T, N>, Vector<T, N>)) -> bool {
        data.0@ == exp_all(x) && data.1@ == exp_all(x)
    }

    open spec fn spec_fits(&self, data: (Vector<T, N>, Vector<T, N>)) -> bool {
        data.0.wf() && data.1.wf()
    }

    open spec fn spec_gradient(
        &self,
        data: (Vector<T, N>, Vector<T, N>),
        activator: &A,
        l: Seq<T>,
        g: (),
        input_loss: Seq<T>,
    ) -> bool {
        input_loss == product_all(data.0@, taxicab_gradient(data.1@, l))
    }

    open spec fn spec_nudged(&self, before: Self, nudge: ()) -> bool {
        true
    }

    fn evaluate_training(&self, inputs: Vector<T, N>, activator: &A) -> (r: (
        Vector<T, N>,
        (Vector<T, N>, Vector<T, N>),
    )) {
        let chain: ChainedNetwork<Exp, TaxicabNormalize, N> = ChainedNetwork::chain(Exp, TaxicabNormalize);
        chain.evaluate_training(inputs, activator)
    }

    /// Back through the normalisation, then through the exponentials.
    fn get_gradient(
        &self,
        layer_inputs: &(Vector<T, N>, Vector<T, N>),
        output_loss_gradients: Vector<T, N>,
        activator: &A,
    ) -> (r: ((), Vector<T, N>)) {
        let chain: ChainedNetwork<Exp, TaxicabNormalize, N> = ChainedNetwork::chain(Exp, TaxicabNormalize);
        let (_, input_loss) = chain.get_gradient(layer_inputs, output_loss_gradients, activator);
        ((), input_loss)
    }

    /// Nothing to move: `Softmax` has no parameters.
    fn apply_nudge(&mut self, nudge: ()) {
    }
}

} // verus!
