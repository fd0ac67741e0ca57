use vstd::prelude::*;

use crate::activators::{activation_gradient_matrix, Activator};
use crate::matrix::{dot, lemma_vector_col, Matrix, Vector};
use crate::scalar::{two, Real};
use crate::valueset::ValueSet;

verus! {

/// `0 <= u <= 1`.
pub open spec fn in_unit_interval<T: Real>(u: T) -> bool {
    u.spec_ge(T::spec_zero()) && T::spec_one().spec_ge(u)
}

/// A source of scalars drawn uniformly from `[0, 1]`, implemented by the
/// user of the crate over a random number generator.
pub trait UnitSource<T: Real> {
    /// The next draw, which lies in `[0, 1]`.
    fn next_unit(&mut self) -> (r: T)
        ensures
            in_unit_interval(r),
    ;
}

/// One layer of neurons: `activation(weight * inputs) + bias`. The bias is
/// added after the activation.
pub struct Layer<T, const I: usize, const O: usize> {
    /// One row of input weights per neuron.
    weight: Matrix<T, O, I>,
    /// One bias per neuron, added after activation.
    bias: Vector<T, O>,
}

/// The gradient of a layer's weights and biases with respect to a loss.
pub struct LayerGradient<T, const I: usize, const O: usize> {
    /// The gradient of each weight.
    pub weight_gradient: Matrix<T, O, I>,
    /// The gradient of each bias.
    pub bias_gradient: Vector<T, O>,
}

/// `u * 2 - 1`: a draw from `[0, 1]` moved to `[-1, 1]`.
pub open spec fn centred<T: Real>(u: T) -> T {
    u.spec_mul(two::<T>()).spec_sub(T::spec_one())
}

/// `x` is `u * 2 - 1` for some draw `u` in `[0, 1]`.
pub open spec fn is_centred<T: Real>(x: T) -> bool {
    exists|u: T| #[trigger] centred(u) == x && in_unit_interval(u)
}

/// Every entry is `u * 2 - 1` for some draw `u` in `[0, 1]`.
pub open spec fn all_centred<T: Real>(s: Seq<T>) -> bool {
    forall|k: int| 0 <= k < s.len() ==> #[trigger] is_centred(s[k])
}

impl<T: Real, const I: usize, const O: usize> Layer<T, I, O> {
    /// Both parameter matrices have their declared dimensions.
    pub open spec fn wf(&self) -> bool {
        self.spec_weight().wf() && self.spec_bias().wf()
    }

    /// The weights.
    pub closed spec fn spec_weight(&self) -> Matrix<T, O, I> {
        self.weight
    }

    /// The biases.
    pub closed spec fn spec_bias(&self) -> Vector<T, O> {
        self.bias
    }

    /// `weight * x`.
    pub open spec fn spec_weighted(&self, x: Seq<T>) -> Seq<T> {
        Seq::new(O as nat, |i: int| dot(self.spec_weight().row(i), x))
    }

    /// `activation(weight * x) + bias`.
    pub open spec fn spec_through<A: Activator<T>>(&self, x: Seq<T>, activator: &A) -> Seq<T> {
        Seq::new(
            O as nat,
            |i: int| activator.spec_activation(self.spec_weighted(x)[i]).spec_add(self.spec_bias()@[i]),
        )
    }

    /// Row `i` of the activation's diagonal Jacobian at `weight * x`.
    pub open spec fn spec_jacobian_row<A: Activator<T>>(&self, x: Seq<T>, activator: &A, i: int) -> Seq<T> {
        Seq::new(
            O as nat,
            |t: int|
                if t == i {
                    activator.spec_activation_gradient(self.spec_weighted(x)[i])
                } else {
                    T::spec_zero()
                },
        )
    }

    /// Entry `(i, j)` of the layer's Jacobian `D * weight`, `D` the activation's Jacobian.
    pub open spec fn spec_gradient_at<A: Activator<T>>(&self, x: Seq<T>, activator: &A, i: int, j: int) -> T {
        dot(self.spec_jacobian_row(x, activator, i), self.spec_weight().col(j))
    }

    /// `D * l`: the loss gradient carried back through the activation.
    pub open spec fn spec_scaled_loss<A: Activator<T>>(&self, x: Seq<T>, activator: &A, l: Seq<T>) -> Seq<T> {
        Seq::new(O as nat, |i: int| dot(self.spec_jacobian_row(x, activator, i), l))
    }

    /// `(D * weight)^T * l`: the loss gradient with respect to the layer's inputs.
    pub open spec fn spec_input_loss<A: Activator<T>>(&self, x: Seq<T>, activator: &A, l: Seq<T>) -> Seq<T> {
        Seq::new(
            I as nat,
            |j: int| dot(Seq::new(O as nat, |t: int| self.spec_gradient_at(x, activator, t, j)), l),
        )
    }

    /// `g` is this layer's gradient at inputs `x` for output loss gradient `l`:
    /// the bias gradient is `l` and weight `(i, j)` gets `(D * l)[i] * x[j]`.
    pub open spec fn is_gradient_of<A: Activator<T>>(
        &self,
        g: LayerGradient<T, I, O>,
        x: Seq<T>,
        activator: &A,
        l: Seq<T>,
    ) -> bool {
        &&& g.weight_gradient.wf()
        &&& g.bias_gradient.wf()
        &&& g.bias_gradient@ == l
        &&& forall|i: int, j: int|
            0 <= i < O && 0 <= j < I ==> #[trigger] g.weight_gradient.at(i, j) == self.spec_scaled_loss(
                x,
                activator,
                l,
            )[i].spec_mul(x[j])
    }

    /// This layer is `before` with `g`'s weight and bias gradients added.
    pub open spec fn is_shift_of(&self, before: Layer<T, I, O>, g: LayerGradient<T, I, O>) -> bool {
        &&& self.wf()
        &&& forall|k: int|
            0 <= k < O * I ==> #[trigger] self.spec_weight()@[k] == before.spec_weight()@[k].spec_add(
                g.weight_gradient@[k],
            )
        &&& forall|k: int|
            0 <= k < O ==> #[trigger] self.spec_bias()@[k] == before.spec_bias()@[k].spec_add(
                g.bias_gradient@[k],
            )
    }

    /// Every weight and bias is `u * 2 - 1` for some draw `u` in `[0, 1]`.
    pub open spec fn is_centred_draw(&self) -> bool {
        &&& self.wf()
        &&& all_centred(self.spec_weight()@)
        &&& all_centred(self.spec_bias()@)
    }

    /// A layer with the given weights and biases.
    pub fn new(weight: Matrix<T, O, I>, bias: Vector<T, O>) -> (r: Self)
        requires
            weight.wf(),
            bias.wf(),
        ensures
            r.wf(),
            r.spec_weight() == weight,
            r.spec_bias() == bias,
    {
        Layer { weight, bias }
    }

    /// The weights.
    pub fn weight(&self) -> (r: &Matrix<T, O, I>)
        ensures
            *r == self.spec_weight(),
    {
        &self.weight
    }

    /// The biases.
    pub fn bias(&self) -> (r: &Vector<T, O>)
        ensures
            *r == self.spec_bias(),
    {
        &self.bias
    }

    /// Transforms `inputs` by the weights, the activation function and the biases.
    pub fn through<A: Activator<T>>(&self, inputs: &Vector<T, I>, activator: &A) -> (r: Vector<T, O>)
        requires
            self.wf(),
            inputs.wf(),
        ensures
            r.wf(),
            r@ == self.spec_through(inputs@, activator),
    {
        let weighted = self.weight.mul(inputs);
        proof {
            lemma_vector_col(inputs);
        }
        let mut out: Vec<T> = Vec::new();
        let mut k: usize = 0;
        while k < O
            invariant
                k <= O,
                self.wf(),
                inputs.wf(),
                weighted.wf(),
                inputs.col(0) == inputs@,
                forall|i: int, j: int|
                    0 <= i < O && 0 <= j < 1 ==> #[trigger] weighted.at(i, j) == dot(
                        self.weight.row(i),
                        inputs.col(j),
                    ),
                out@.len() == k,
                forall|i: int|
                    0 <= i < k ==> #[trigger] out@[i] == self.spec_through(inputs@, activator)[i],
            decreases O - k,
        {
            let w = weighted.get(k, 0);
            let b = self.bias.get(k, 0);
            proof {
                lemma_vector_col(&self.bias);
            }
            out.push(activator.activation(w).add(b));
            k = k + 1;
        }
        let r = Matrix::from_vec(out);
        assert(r@ =~= self.spec_through(inputs@, activator));
        r
    }
    /// The layer's Jacobian `D * weight` at `inputs`, `D` being the
    /// activation's diagonal Jacobian at `weight * inputs`.
    pub fn gradient<A: Activator<T>>(&self, inputs: &Vector<T, I>, activator: &A) -> (r: Matrix<T, O, I>)
        requires
            self.wf(),
            inputs.wf(),
        ensures
            r.wf(),
            forall|i: int, j: int|
                0 <= i < O && 0 <= j < I ==> #[trigger] r.at(i, j) == self.spec_gradient_at(
                    inputs@,
                    activator,
                    i,
                    j,
                ),
    {
        let weighted = self.weight.mul(inputs);
        proof {
            lemma_vector_col(inputs);
            lemma_vector_col(&weighted);
        }
        let jacobian = activation_gradient_matrix(activator, &weighted);
        let r = jacobian.mul(&self.weight);
        assert forall|i: int, j: int| 0 <= i < O && 0 <= j < I implies #[trigger] r.at(i, j)
            == self.spec_gradient_at(inputs@, activator, i, j) by {
            assert(jacobian.row(i) =~= self.spec_jacobian_row(inputs@, activator, i)) by {
                assert forall|t: int| 0 <= t < O implies #[trigger] jacobian.row(i)[t]
                    == self.spec_jacobian_row(inputs@, activator, i)[t] by {
                    assert(jacobian.at(i, t) == jacobian.row(i)[t]);
                    assert(weighted.at(i, 0) == weighted@[i]);
                    assert(weighted.at(i, 0) == dot(self.weight.row(i), inputs.col(0)));
                }
            }
        }
        r
    }

    /// Backpropagates `loss_gradients` (the loss's gradient with respect to
    /// this layer's outputs) for the given `inputs`: returns the gradient of
    /// the weights and biases and the loss's gradient with respect to the inputs.
    pub fn backpropogate<A: Activator<T>>(
        &self,
        loss_gradients: Vector<T, O>,
        inputs: &Vector<T, I>,
        activator: &A,
    ) -> (r: (LayerGradient<T, I, O>, Vector<T, I>))
        requires
            self.wf(),
            loss_gradients.wf(),
            inputs.wf(),
        ensures
            self.is_gradient_of(r.0, inputs@, activator, loss_gradients@),
            r.1.wf(),
            r.1@ == self.spec_input_loss(inputs@, activator, loss_gradients@),
    {
        let weighted = self.weight.mul(inputs);
        proof {
            lemma_vector_col(inputs);
            lemma_vector_col(&weighted);
            lemma_vector_col(&loss_gradients);
        }
        let jacobian = activation_gradient_matrix(activator, &weighted);
        // each weight moves by its pre-activation loss gradient times its input
        let scaled: Vector<T, O> = jacobian.mul(&loss_gradients);
        proof {
            lemma_vector_col(&scaled);
            assert forall|i: int| 0 <= i < O implies #[trigger] scaled@[i] == self.spec_scaled_loss(
                inputs@,
                activator,
                loss_gradients@,
            )[i] by {
                assert(scaled.at(i, 0) == dot(jacobian.row(i), loss_gradients.col(0)));
                assert(jacobian.row(i) =~= self.spec_jacobian_row(inputs@, activator, i)) by {
                    assert forall|t: int| 0 <= t < O implies #[trigger] jacobian.row(i)[t]
                        == self.spec_jacobian_row(inputs@, activator, i)[t] by {
                        assert(jacobian.at(i, t) == jacobian.row(i)[t]);
                        assert(weighted.at(i, 0) == dot(self.weight.row(i), inputs.col(0)));
                    }
                }
            }
        }
        let weight_gradient = Matrix::outer(&scaled, inputs);
        let gradient = self.gradient(inputs, activator);
        let transposed = gradient.transpose();
        let input_loss = transposed.mul(&loss_gradients);
        proof {
            lemma_vector_col(&input_loss);
            assert(input_loss@ =~= self.spec_input_loss(inputs@, activator, loss_gradients@)) by {
                assert forall|j: int| 0 <= j < I implies #[trigger] input_loss@[j]
                    == self.spec_input_loss(inputs@, activator, loss_gradients@)[j] by {
                    assert(input_loss.at(j, 0) == input_loss@[j]);
                    assert(input_loss.at(j, 0) == dot(transposed.row(j), loss_gradients.col(0)));
                    assert(transposed.row(j) =~= Seq::new(
                        O as nat,
                        |t: int| self.spec_gradient_at(inputs@, activator, t, j),
                    )) by {
                        assert forall|t: int| 0 <= t < O implies #[trigger] transposed.row(j)[t]
                            == self.spec_gradient_at(inputs@, activator, t, j) by {
                            assert(transposed.at(j, t) == gradient.at(t, j));
                        }
                    }
                }
            }
        }
        (LayerGradient { weight_gradient, bias_gradient: loss_gradients }, input_loss)
    }

    /// Adds the given shifts to the weights and biases.
    pub fn apply_shifts(&mut self, weight_direction: Matrix<T, O, I>, bias_direction: Vector<T, O>)
        requires
            old(self).wf(),
            weight_direction.wf(),
            bias_direction.wf(),
        ensures
            final(self).wf(),
            forall|k: int|
                0 <= k < O * I ==> #[trigger] final(self).spec_weight()@[k] == old(
                    self,
                ).spec_weight()@[k].spec_add(weight_direction@[k]),
            forall|k: int|
                0 <= k < O ==> #[trigger] final(self).spec_bias()@[k] == old(
                    self,
                ).spec_bias()@[k].spec_add(bias_direction@[k]),
    {
        let plus = |a: &T, b: &T| -> (r: T) ensures r == a.spec_add(*b) { a.add(*b) };
        let weight = self.weight.binary_operation(&weight_direction, &plus);
        let bias = self.bias.binary_operation(&bias_direction, &plus);
        assert forall|k: int| 0 <= k < O * I implies #[trigger] weight@[k] == self.weight@[k].spec_add(
            weight_direction@[k],
        ) by {
            assert(weight.leaves()[k] == weight@[k]);
        }
        assert forall|k: int| 0 <= k < O implies #[trigger] bias@[k] == self.bias@[k].spec_add(
            bias_direction@[k],
        ) by {
            assert(bias.leaves()[k] == bias@[k]);
        }
        self.weight = weight;
        self.bias = bias;
    }

    /// A layer whose weights and biases are each `u * 2 - 1` for a draw `u`
    /// of `rng`, so uniform in `[-1, 1]` when the draws are uniform in `[0, 1]`.
    pub fn random<R: UnitSource<T>>(rng: &mut R) -> (r: Self)
        ensures
            r.is_centred_draw(),
    {
        let weight = Matrix::from_vec(centred_draws(rng, O, I));
        let bias = Matrix::from_vec(centred_draws(rng, O, 1));
        Layer { weight, bias }
    }
}

/// `rows * cols` draws of `rng`, each moved from `[0, 1]` to `[-1, 1]`.
fn centred_draws<T: Real, R: UnitSource<T>>(rng: &mut R, rows: usize, cols: usize) -> (r: Vec<T>)
    ensures
        r@.len() == rows * cols,
        all_centred(r@),
{
    let doubler = T::one().add(T::one());
    let mut data: Vec<T> = Vec::new();
    let mut i: usize = 0;
    while i < rows
        invariant
            i <= rows,
            doubler == two::<T>(),
            data@.len() == i * cols,
            all_centred(data@),
        decreases rows - i,
    {
        let mut j: usize = 0;
        while j < cols
            invariant
                i < rows,
                j <= cols,
                doubler == two::<T>(),
                data@.len() == i * cols + j,
                all_centred(data@),
            decreases cols - j,
        {
            let u = rng.next_unit();
            let ghost before = data@;
            data.push(u.mul(doubler).sub(T::one()));
            proof {
                assert forall|k: int| 0 <= k < data@.len() implies #[trigger] is_centred(data@[k]) by {
                    if k == data@.len() - 1 {
                        assert(data@[k] == centred(u));
                    } else {
                        assert(data@[k] == before[k]);
                        assert(is_centred(before[k]));
                    }
                }
            }
            j = j + 1;
        }
        proof {
            crate::matrix::lemma_next_row(i as int, cols as int);
        }
        i = i + 1;
    }
    data
}

impl<T: Real, const I: usize, const O: usize> ValueSet<T> for LayerGradient<T, I, O> {
    open spec fn shaped(&self) -> bool {
        self.weight_gradient.wf() && self.bias_gradient.wf()
    }

    open spec fn leaves(&self) -> Seq<T> {
        self.weight_gradient@ + self.bias_gradient@
    }

    open spec fn leaf_count() -> nat {
        (O * I + O) as nat
    }

    proof fn lemma_leaf_count(&self) {
    }

    fn unary_operation<F: Fn(&T) -> T>(&self, f: &F) -> (r: Self) {
        let ghost n = (O * I) as int;
        proof {
            assert forall|i: int| 0 <= i < n implies call_requires(
                *f,
                (&self.weight_gradient.leaves()[i],),
            ) by {
                assert(self.leaves()[i] == self.weight_gradient@[i]);
            }
            assert forall|i: int| 0 <= i < O implies call_requires(
                *f,
                (&self.bias_gradient.leaves()[i],),
            ) by {
                assert(self.leaves()[n + i] == self.bias_gradient@[i]);
            }
        }
        let weight_gradient = self.weight_gradient.unary_operation(f);
        let bias_gradient = self.bias_gradient.unary_operation(f);
        let r = LayerGradient { weight_gradient, bias_gradient };
        proof {
            assert forall|i: int| 0 <= i < Self::leaf_count() implies call_ensures(
                *f,
                (&self.leaves()[i],),
                #[trigger] r.leaves()[i],
            ) by {
                if i < n {
                    assert(r.leaves()[i] == weight_gradient.leaves()[i]);
                    assert(self.leaves()[i] == self.weight_gradient.leaves()[i]);
                } else {
                    assert(r.leaves()[i] == bias_gradient.leaves()[i - n]);
                    assert(self.leaves()[i] == self.bias_gradient.leaves()[i - n]);
                }
            }
        }
        r
    }

    fn binary_operation<F: Fn(&T, &T) -> T>(&self, other: &Self, f: &F) -> (r: Self) {
        let ghost n = (O * I) as int;
        proof {
            assert forall|i: int| 0 <= i < n implies call_requires(
                *f,
                (&self.weight_gradient.leaves()[i], &other.weight_gradient.leaves()[i]),
            ) by {
                assert(self.leaves()[i] == self.weight_gradient@[i]);
                assert(other.leaves()[i] == other.weight_gradient@[i]);
            }
            assert forall|i: int| 0 <= i < O implies call_requires(
                *f,
                (&self.bias_gradient.leaves()[i], &other.bias_gradient.leaves()[i]),
            ) by {
                assert(self.leaves()[n + i] == self.bias_gradient@[i]);
                assert(other.leaves()[n + i] == other.bias_gradient@[i]);
            }
        }
        let weight_gradient = self.weight_gradient.binary_operation(&other.weight_gradient, f);
        let bias_gradient = self.bias_gradient.binary_operation(&other.bias_gradient, f);
        let r = LayerGradient { weight_gradient, bias_gradient };
        proof {
            assert forall|i: int| 0 <= i < Self::leaf_count() implies call_ensures(
                *f,
                (&self.leaves()[i], &other.leaves()[i]),
                #[trigger] r.leaves()[i],
            ) by {
                if i < n {
                    assert(r.leaves()[i] == weight_gradient.leaves()[i]);
                    assert(self.leaves()[i] == self.weight_gradient.leaves()[i]);
                    assert(other.leaves()[i] == other.weight_gradient.leaves()[i]);
                } else {
                    assert(r.leaves()[i] == bias_gradient.leaves()[i - n]);
                    assert(self.leaves()[i] == self.bias_gradient.leaves()[i - n]);
                    assert(other.leaves()[i] == other.bias_gradient.leaves()[i - n]);
                }
            }
        }
        r
    }

    fn all(v: T) -> (r: Self) {
        let weight_gradient = Matrix::all(v);
        let bias_gradient = Matrix::all(v);
        let r = LayerGradient { weight_gradient, bias_gradient };
        assert forall|i: int| 0 <= i < Self::leaf_count() implies #[trigger] r.leaves()[i] == v by {
            let n = (O * I) as int;
            if i < n {
                assert(r.leaves()[i] == weight_gradient.leaves()[i]);
            } else {
                assert(r.leaves()[i] == bias_gradient.leaves()[i - n]);
            }
        }
        r
    }
}

} // verus!
