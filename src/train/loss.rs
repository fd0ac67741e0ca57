use vstd::prelude::*;

use crate::matrix::{dot, dot_prefix, lemma_vector_col, Matrix, Vector};
use crate::scalar::Real;

verus! {

/// `predicted - actual`, entry by entry.
pub open spec fn delta<T: Real>(actual: Seq<T>, predicted: Seq<T>) -> Seq<T> {
    Seq::new(actual.len(), |i: int| predicted[i].spec_sub(actual[i]))
}

/// The squared Euclidean norm of `predicted - actual`.
pub open spec fn squared_distance<T: Real>(actual: Seq<T>, predicted: Seq<T>) -> T {
    let d = delta(actual, predicted);
    dot(d, d)
}

/// `predicted - actual` and its squared Euclidean norm.
fn delta_and_norm_squared<T: Real, const N: usize>(
    actual: &Vector<T, N>,
    predicted: &Vector<T, N>,
) -> (r: (Vec<T>, T))
    requires
        actual.wf(),
        predicted.wf(),
    ensures
        r.0@ == delta(actual@, predicted@),
        r.1 == squared_distance(actual@, predicted@),
{
    proof {
        lemma_vector_col(actual);
        lemma_vector_col(predicted);
    }
    let mut d: Vec<T> = Vec::new();
    let mut sum = T::zero();
    let mut k: usize = 0;
    while k < N
        invariant
            k <= N,
            actual.wf(),
            predicted.wf(),
            d@ == delta(actual@, predicted@).take(k as int),
            sum == dot_prefix(delta(actual@, predicted@), delta(actual@, predicted@), k as nat),
        decreases N - k,
    {
        let x = predicted.get(k, 0).sub(actual.get(k, 0));
        d.push(x);
        sum = sum.add(x.mul(x));
        proof {
            assert(d@ =~= delta(actual@, predicted@).take(k + 1));
        }
        k = k + 1;
    }
    assert(d@ =~= delta(actual@, predicted@));
    (d, sum)
}

/// The squared error: the squared Euclidean norm of `predicted - actual`,
/// and its gradient `2 * (predicted - actual)` (computed as `d + d`).
pub fn squared_error<T: Real, const N: usize>(actual: &Vector<T, N>, predicted: &Vector<T, N>) -> (r: (
    T,
    Vector<T, N>,
))
    requires
        actual.wf(),
        predicted.wf(),
    ensures
        r.0 == squared_distance(actual@, predicted@),
        r.1.wf(),
        forall|i: int|
            0 <= i < N ==> #[trigger] r.1@[i] == delta(actual@, predicted@)[i].spec_add(
                delta(actual@, predicted@)[i],
            ),
{
    let (d, norm_squared) = delta_and_norm_squared(actual, predicted);
    let mut gradient: Vec<T> = Vec::new();
    let mut k: usize = 0;
    while k < N
        invariant
            k <= N,
            d@ == delta(actual@, predicted@),
            actual.wf(),
            gradient@.len() == k,
            forall|i: int| 0 <= i < k ==> #[trigger] gradient@[i] == d@[i].spec_add(d@[i]),
        decreases N - k,
    {
        gradient.push(d[k].add(d[k]));
        k = k + 1;
    }
    (norm_squared, Matrix::from_vec(gradient))
}

/// The absolute error: the Euclidean norm of `predicted - actual`, and its
/// gradient, `predicted - actual` divided by that norm. Where `predicted`
/// equals `actual` the norm is zero and so is every divisor.
pub fn absoloute_error<T: Real, const N: usize>(actual: &Vector<T, N>, predicted: &Vector<T, N>) -> (r: (
    T,
    Vector<T, N>,
))
    requires
        actual.wf(),
        predicted.wf(),
    ensures
        r.0 == squared_distance(actual@, predicted@).spec_sqrt(),
        r.1.wf(),
        forall|i: int|
            0 <= i < N ==> #[trigger] r.1@[i] == delta(actual@, predicted@)[i].spec_div(r.0),
{
    let (d, norm_squared) = delta_and_norm_squared(actual, predicted);
    let norm = norm_squared.sqrt();
    let mut gradient: Vec<T> = Vec::new();
    let mut k: usize = 0;
    while k < N
        invariant
            k <= N,
            d@ == delta(actual@, predicted@),
            actual.wf(),
            gradient@.len() == k,
            forall|i: int| 0 <= i < k ==> #[trigger] gradient@[i] == d@[i].spec_div(norm),
        decreases N - k,
    {
        gradient.push(d[k].div(norm));
        k = k + 1;
    }
    (norm, Matrix::from_vec(gradient))
}

} // verus!
