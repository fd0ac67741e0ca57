use vstd::prelude::*;

use crate::matrix::{Matrix, Vector};
use crate::scalar::Real;

verus! {

/// An activation function and its gradient.
pub trait Activator<T: Real> {
    /// The value of the activation function at `x`.
    spec fn spec_activation(&self, x: T) -> T;

    /// The value of the activation function's gradient at `x`.
    spec fn spec_activation_gradient(&self, x: T) -> T;

    /// The activation function, applied after the weights and before the bias.
    fn activation(&self, x: T) -> (r: T)
        ensures
            r == self.spec_activation(x),
    ;

    /// The gradient of the activation function, used in backpropagation.
    fn activation_gradient(&self, x: T) -> (r: T)
        ensures
            r == self.spec_activation_gradient(x),
    ;
}

/// The Jacobian of `activator` applied elementwise to `weighted`: the
/// diagonal holds the activation's gradient at each entry, the rest is zero.
pub fn activation_gradient_matrix<T: Real, A: Activator<T>, const N: usize>(
    activator: &A,
    weighted: &Vector<T, N>,
) -> (r: Matrix<T, N, N>)
    requires
        weighted.wf(),
    ensures
        r.wf(),
        forall|i: int, j: int|
            0 <= i < N && 0 <= j < N ==> #[trigger] r.at(i, j) == if i == j {
                activator.spec_activation_gradient(weighted.at(i, 0))
            } else {
                T::spec_zero()
            },
{
    let mut diagonal: Vec<T> = Vec::new();
    let mut k: usize = 0;
    while k < N
        invariant
            k <= N,
            weighted.wf(),
            diagonal@.len() == k,
            forall|i: int|
                0 <= i < k ==> #[trigger] diagonal@[i] == activator.spec_activation_gradient(
                    weighted.at(i, 0),
                ),
        decreases N - k,
    {
        let g = activator.activation_gradient(weighted.get(k, 0));
        diagonal.push(g);
        k = k + 1;
    }
    Matrix::diagonal_from(&diagonal, T::zero())
}

/// The logistic function `1 / (1 + e^-x)`.
pub open spec fn sigmoid<T: Real>(x: T) -> T {
    T::spec_one().spec_div(T::spec_one().spec_add(x.spec_neg().spec_exp()))
}

/// The Sigmoid activation function.
pub struct Sigmoid;

impl<T: Real> Activator<T> for Sigmoid {
    open spec fn spec_activation(&self, x: T) -> T {
        sigmoid(x)
    }

    open spec fn spec_activation_gradient(&self, x: T) -> T {
        sigmoid(x).spec_mul(T::spec_one().spec_sub(sigmoid(x)))
    }

    fn activation(&self, x: T) -> (r: T) {
        T::one().div(T::one().add(x.neg().exp()))
    }

    fn activation_gradient(&self, x: T) -> (r: T) {
        let sigma = self.activation(x);
        sigma.mul(T::one().sub(sigma))
    }
}

/// The (leaky) Rectified Linear Unit: the identity at and above zero,
/// `leaky_gradient * x` below.
pub struct Relu<T> {
    /// The gradient below zero.
    pub leaky_gradient: T,
}

impl<T: Real> Default for Relu<T> {
    fn default() -> (r: Self)
        ensures
            r.leaky_gradient == T::spec_zero(),
    {
        Relu { leaky_gradient: T::zero() }
    }
}

impl<T: Real> Activator<T> for Relu<T> {
    open spec fn spec_activation(&self, x: T) -> T {
        if x.spec_ge(T::spec_zero()) {
            x
        } else {
            self.leaky_gradient.spec_mul(x)
        }
    }

    open spec fn spec_activation_gradient(&self, x: T) -> T {
        if x.spec_ge(T::spec_zero()) {
            T::spec_one()
        } else {
            self.leaky_gradient
        }
    }

    fn activation(&self, x: T) -> (r: T) {
        if x.ge(T::zero()) {
            x
        } else {
            self.leaky_gradient.mul(x)
        }
    }

    fn activation_gradient(&self, x: T) -> (r: T) {
        // at exactly zero the gradient of the identity side is taken
        if x.ge(T::zero()) {
            T::one()
        } else {
            self.leaky_gradient
        }
    }
}

/// The Exponential Linear Unit: `x` at and above zero, `e^x - 1` below.
pub struct Elu;

impl<T: Real> Activator<T> for Elu {
    open spec fn spec_activation(&self, x: T) -> T {
        if x.spec_ge(T::spec_zero()) {
            x
        } else {
            x.spec_exp().spec_sub(T::spec_one())
        }
    }

    open spec fn spec_activation_gradient(&self, x: T) -> T {
        if x.spec_ge(T::spec_zero()) {
            T::spec_one()
        } else {
            x.spec_exp()
        }
    }

    fn activation(&self, x: T) -> (r: T) {
        if x.ge(T::zero()) {
            x
        } else {
            x.exp().sub(T::one())
        }
    }

    fn activation_gradient(&self, x: T) -> (r: T) {
        if x.ge(T::zero()) {
            T::one()
        } else {
            x.exp()
        }
    }
}

/// The identity activation, with gradient one everywhere.
pub struct Linear;

impl<T: Real> Activator<T> for Linear {
    open spec fn spec_activation(&self, x: T) -> T {
        x
    }

    open spec fn spec_activation_gradient(&self, x: T) -> T {
        T::spec_one()
    }

    fn activation(&self, x: T) -> (r: T) {
        x
    }

    fn activation_gradient(&self, x: T) -> (r: T) {
        T::one()
    }
}

} // verus!
