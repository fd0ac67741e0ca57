use vstd::prelude::*;

use crate::matrix::{lemma_next_row, Matrix};
use crate::scalar::{count_of, Real};

verus! {

/// Anything that is a nested collection of scalars of one type, with a fixed
/// shape: the elementwise algebra is written once over this interface and
/// serves matrices, per-layer gradients and whole-network gradients alike.
///
/// The scalars of a value, read in a fixed traversal order, are its
/// `leaves()`. Every well-shaped value of a type has `leaf_count()` of them.
pub trait ValueSet<T>: Sized {
    /// The value has the shape its type prescribes.
    spec fn shaped(&self) -> bool;

    /// The scalars of the value in traversal order.
    spec fn leaves(&self) -> Seq<T>;

    /// How many scalars a well-shaped value holds.
    spec fn leaf_count() -> nat;

    /// A well-shaped value holds exactly `leaf_count()` scalars.
    proof fn lemma_leaf_count(&self)
        requires
            self.shaped(),
        ensures
            self.leaves().len() == Self::leaf_count(),
    ;

    /// Applies `f` to every scalar, keeping the shape.
    fn unary_operation<F: Fn(&T) -> T>(&self, f: &F) -> (r: Self)
        requires
            self.shaped(),
            forall|i: int| 0 <= i < Self::leaf_count() ==> call_requires(f, (&self.leaves()[i],)),
        ensures
            r.shaped(),
            forall|i: int|
                0 <= i < Self::leaf_count() ==> call_ensures(
                    f,
                    (&self.leaves()[i],),
                    #[trigger] r.leaves()[i],
                ),
    ;

    /// Applies `f` to every pair of corresponding scalars of `self` and `other`.
    fn binary_operation<F: Fn(&T, &T) -> T>(&self, other: &Self, f: &F) -> (r: Self)
        requires
            self.shaped(),
            other.shaped(),
            forall|i: int|
                0 <= i < Self::leaf_count() ==> call_requires(
                    f,
                    (&self.leaves()[i], &other.leaves()[i]),
                ),
        ensures
            r.shaped(),
            forall|i: int|
                0 <= i < Self::leaf_count() ==> call_ensures(
                    f,
                    (&self.leaves()[i], &other.leaves()[i]),
                    #[trigger] r.leaves()[i],
                ),
    ;

    /// A value of the type's shape with every scalar set to `v`.
    fn all(v: T) -> (r: Self)
        ensures
            r.shaped(),
            forall|i: int| 0 <= i < Self::leaf_count() ==> #[trigger] r.leaves()[i] == v,
    ;
}

impl<T: Real, const R: usize, const C: usize> ValueSet<T> for Matrix<T, R, C> {
    open spec fn shaped(&self) -> bool {
        self.wf()
    }

    open spec fn leaves(&self) -> Seq<T> {
        self@
    }

    open spec fn leaf_count() -> nat {
        (R * C) as nat
    }

    proof fn lemma_leaf_count(&self) {
    }

    fn unary_operation<F: Fn(&T) -> T>(&self, f: &F) -> (r: Self) {
        let src = self.as_vec();
        let mut data: Vec<T> = Vec::new();
        let mut k: usize = 0;
        while k < src.len()
            invariant
                src@ == self@,
                self.wf(),
                k <= src@.len(),
                data@.len() == k,
                forall|i: int| 0 <= i < Self::leaf_count() ==> call_requires(f, (&self.leaves()[i],)),
                forall|i: int| 0 <= i < k ==> call_ensures(f, (&self@[i],), #[trigger] data@[i]),
            decreases src@.len() - k,
        {
            assert(src@[k as int] == self.leaves()[k as int]);
            let x = f(&src[k]);
            data.push(x);
            k = k + 1;
        }
        Matrix::from_vec(data)
    }

    fn binary_operation<F: Fn(&T, &T) -> T>(&self, other: &Self, f: &F) -> (r: Self) {
        let a = self.as_vec();
        let b = other.as_vec();
        let mut data: Vec<T> = Vec::new();
        let mut k: usize = 0;
        while k < a.len()
            invariant
                a@ == self@,
                b@ == other@,
                self.wf(),
                other.wf(),
                k <= a@.len(),
                data@.len() == k,
                forall|i: int| 0 <= i < Self::leaf_count() ==> call_requires(f, (&self.leaves()[i], &other.leaves()[i])),
                forall|i: int|
                    0 <= i < k ==> call_ensures(f, (&self@[i], &other@[i]), #[trigger] data@[i]),
            decreases a@.len() - k,
        {
            assert(a@[k as int] == self.leaves()[k as int]);
            assert(b@[k as int] == other.leaves()[k as int]);
            let x = f(&a[k], &b[k]);
            data.push(x);
            k = k + 1;
        }
        Matrix::from_vec(data)
    }

    fn all(v: T) -> (r: Self) {
        let mut data: Vec<T> = Vec::new();
        let mut i: usize = 0;
        while i < R
            invariant
                i <= R,
                data@.len() == i * C,
                forall|k: int| 0 <= k < data@.len() ==> #[trigger] data@[k] == v,
            decreases R - i,
        {
            let mut j: usize = 0;
            while j < C
                invariant
                    i < R,
                    j <= C,
                    data@.len() == i * C + j,
                    forall|k: int| 0 <= k < data@.len() ==> #[trigger] data@[k] == v,
                decreases C - j,
            {
                data.push(v);
                j = j + 1;
            }
            proof {
                lemma_next_row(i as int, C as int);
            }
            i = i + 1;
        }
        Matrix::from_vec(data)
    }
}

/// Nothing: the gradient of something without parameters.
impl<T> ValueSet<T> for () {
    open spec fn shaped(&self) -> bool {
        true
    }

    open spec fn leaves(&self) -> Seq<T> {
        Seq::empty()
    }

    open spec fn leaf_count() -> nat {
        0
    }

    proof fn lemma_leaf_count(&self) {
    }

    fn unary_operation<F: Fn(&T) -> T>(&self, f: &F) -> (r: Self) {
    }

    fn binary_operation<F: Fn(&T, &T) -> T>(&self, other: &Self, f: &F) -> (r: Self) {
    }

    fn all(v: T) -> (r: Self) {
    }
}

/// A pair: the scalars of the first component, then those of the second.
impl<T: Real, X: ValueSet<T>, Y: ValueSet<T>> ValueSet<T> for (X, Y) {
    open spec fn shaped(&self) -> bool {
        self.0.shaped() && self.1.shaped()
    }

    open spec fn leaves(&self) -> Seq<T> {
        self.0.leaves() + self.1.leaves()
    }

    open spec fn leaf_count() -> nat {
        X::leaf_count() + Y::leaf_count()
    }

    proof fn lemma_leaf_count(&self) {
        self.0.lemma_leaf_count();
        self.1.lemma_leaf_count();
    }

    fn unary_operation<F: Fn(&T) -> T>(&self, f: &F) -> (r: Self) {
        let ghost n = X::leaf_count() as int;
        proof {
            self.0.lemma_leaf_count();
            self.1.lemma_leaf_count();
            assert forall|i: int| 0 <= i < n implies call_requires(*f, (&self.0.leaves()[i],)) by {
                assert(self.leaves()[i] == self.0.leaves()[i]);
            }
            assert forall|i: int| 0 <= i < Y::leaf_count() implies call_requires(
                *f,
                (&self.1.leaves()[i],),
            ) by {
                assert(self.leaves()[n + i] == self.1.leaves()[i]);
            }
        }
        let first = self.0.unary_operation(f);
        let second = self.1.unary_operation(f);
        let r = (first, second);
        proof {
            first.lemma_leaf_count();
            second.lemma_leaf_count();
            assert forall|i: int| 0 <= i < Self::leaf_count() implies call_ensures(
                *f,
                (&self.leaves()[i],),
                #[trigger] r.leaves()[i],
            ) by {
                if i < n {
                    assert(r.leaves()[i] == first.leaves()[i]);
                    assert(self.leaves()[i] == self.0.leaves()[i]);
                } else {
                    assert(r.leaves()[i] == second.leaves()[i - n]);
                    assert(self.leaves()[i] == self.1.leaves()[i - n]);
                }
            }
        }
        r
    }

    fn binary_operation<F: Fn(&T, &T) -> T>(&self, other: &Self, f: &F) -> (r: Self) {
        let ghost n = X::leaf_count() as int;
        proof {
            self.0.lemma_leaf_count();
            self.1.lemma_leaf_count();
            other.0.lemma_leaf_count();
            other.1.lemma_leaf_count();
            assert forall|i: int| 0 <= i < n implies call_requires(
                *f,
                (&self.0.leaves()[i], &other.0.leaves()[i]),
            ) by {
                assert(self.leaves()[i] == self.0.leaves()[i]);
                assert(other.leaves()[i] == other.0.leaves()[i]);
            }
            assert forall|i: int| 0 <= i < Y::leaf_count() implies call_requires(
                *f,
                (&self.1.leaves()[i], &other.1.leaves()[i]),
            ) by {
                assert(self.leaves()[n + i] == self.1.leaves()[i]);
                assert(other.leaves()[n + i] == other.1.leaves()[i]);
            }
        }
        let first = self.0.binary_operation(&other.0, f);
        let second = self.1.binary_operation(&other.1, f);
        let r = (first, second);
        proof {
            first.lemma_leaf_count();
            second.lemma_leaf_count();
            assert forall|i: int| 0 <= i < Self::leaf_count() implies call_ensures(
                *f,
                (&self.leaves()[i], &other.leaves()[i]),
                #[trigger] r.leaves()[i],
            ) by {
                if i < n {
                    assert(r.leaves()[i] == first.leaves()[i]);
                    assert(self.leaves()[i] == self.0.leaves()[i]);
                    assert(other.leaves()[i] == other.0.leaves()[i]);
                } else {
                    assert(r.leaves()[i] == second.leaves()[i - n]);
                    assert(self.leaves()[i] == self.1.leaves()[i - n]);
                    assert(other.leaves()[i] == other.1.leaves()[i - n]);
                }
            }
        }
        r
    }

    fn all(v: T) -> (r: Self) {
        let first = X::all(v);
        let second = Y::all(v);
        let r = (first, second);
        proof {
            first.lemma_leaf_count();
            second.lemma_leaf_count();
            let n = X::leaf_count() as int;
            assert forall|i: int| 0 <= i < Self::leaf_count() implies #[trigger] r.leaves()[i] == v by {
                if i < n {
                    assert(r.leaves()[i] == first.leaves()[i]);
                } else {
                    assert(r.leaves()[i] == second.leaves()[i - n]);
                }
            }
        }
        r
    }
}

/// `0 + items[0].leaves()[i] + ... + items[k-1].leaves()[i]`.
pub open spec fn leaf_sum<T: Real, V: ValueSet<T>>(items: Seq<V>, i: int, k: nat) -> T
    decreases k,
{
    if k == 0 {
        T::spec_zero()
    } else {
        leaf_sum(items, i, (k - 1) as nat).spec_add(items[k - 1].leaves()[i])
    }
}

/// The elementwise sum of the values in `v` and their count.
pub fn sum_count<T: Real, V: ValueSet<T>>(v: &[V]) -> (r: (V, T))
    requires
        forall|k: int| 0 <= k < v@.len() ==> (#[trigger] v@[k]).shaped(),
    ensures
        r.0.shaped(),
        r.1 == count_of::<T>(v@.len()),
        forall|i: int|
            0 <= i < V::leaf_count() ==> #[trigger] r.0.leaves()[i] == leaf_sum(v@, i, v@.len()),
{
    let mut count = T::zero();
    let mut sum = V::all(T::zero());
    let mut k: usize = 0;
    while k < v.len()
        invariant
            k <= v@.len(),
            forall|j: int| 0 <= j < v@.len() ==> (#[trigger] v@[j]).shaped(),
            sum.shaped(),
            count == count_of::<T>(k as nat),
            forall|i: int|
                0 <= i < V::leaf_count() ==> #[trigger] sum.leaves()[i] == leaf_sum(v@, i, k as nat),
        decreases v@.len() - k,
    {
        count = count.add(T::one());
        let plus = |a: &T, b: &T| -> (r: T) ensures r == a.spec_add(*b) { a.add(*b) };
        let next = sum.binary_operation(&v[k], &plus);
        proof {
            assert forall|i: int| 0 <= i < V::leaf_count() implies #[trigger] next.leaves()[i]
                == leaf_sum(v@, i, (k + 1) as nat) by {
                assert(sum.leaves()[i] == leaf_sum(v@, i, k as nat));
            }
        }
        sum = next;
        k = k + 1;
    }
    (sum, count)
}

/// The elementwise mean of the values in `v`: their sum divided by their count.
pub fn mean<T: Real, V: ValueSet<T>>(v: &[V]) -> (r: V)
    requires
        forall|k: int| 0 <= k < v@.len() ==> (#[trigger] v@[k]).shaped(),
    ensures
        r.shaped(),
        forall|i: int|
            0 <= i < V::leaf_count() ==> #[trigger] r.leaves()[i] == leaf_sum(
                v@,
                i,
                v@.len(),
            ).spec_div(count_of::<T>(v@.len())),
{
    let (sum, count) = sum_count(v);
    let divide = |x: &T| -> (r: T) ensures r == x.spec_div(count) { x.div(count) };
    let r = sum.unary_operation(&divide);
    proof {
        assert forall|i: int| 0 <= i < V::leaf_count() implies #[trigger] r.leaves()[i] == leaf_sum(
            v@,
            i,
            v@.len(),
        ).spec_div(count_of::<T>(v@.len())) by {
            assert(sum.leaves()[i] == leaf_sum(v@, i, v@.len()));
        }
    }
    r
}

/// `unary_operation` with the identity leaves a value unchanged: if `f`
/// returns its argument and `r` is what `unary_operation(f)` returned for
/// `a`, then `r` has the same scalars as `a`.
pub proof fn lemma_unary_identity<T, V: ValueSet<T>, F: Fn(&T) -> T>(a: V, f: F, r: V)
    requires
        a.shaped(),
        r.shaped(),
        forall|x: &T, y: T| #[trigger] call_ensures(f, (x,), y) ==> y == *x,
        forall|i: int|
            0 <= i < V::leaf_count() ==> call_ensures(f, (&a.leaves()[i],), #[trigger] r.leaves()[i]),
    ensures
        r.leaves() == a.leaves(),
{
    a.lemma_leaf_count();
    r.lemma_leaf_count();
    assert forall|i: int| 0 <= i < a.leaves().len() implies #[trigger] r.leaves()[i]
        == a.leaves()[i] by {
        assert(call_ensures(f, (&a.leaves()[i],), r.leaves()[i]));
    }
    assert(r.leaves() =~= a.leaves());
}

/// `binary_operation` with addition is elementwise addition: if `f` adds
/// its arguments and `r` is what `a.binary_operation(b, f)` returned, each
/// scalar of `r` is the sum of the corresponding scalars of `a` and `b`.
pub proof fn lemma_binary_addition<T: Real, V: ValueSet<T>, F: Fn(&T, &T) -> T>(a: V, b: V, f: F, r: V)
    requires
        a.shaped(),
        b.shaped(),
        r.shaped(),
        forall|x: &T, y: &T, z: T| #[trigger] call_ensures(f, (x, y), z) ==> z == x.spec_add(*y),
        forall|i: int|
            0 <= i < V::leaf_count() ==> call_ensures(
                f,
                (&a.leaves()[i], &b.leaves()[i]),
                #[trigger] r.leaves()[i],
            ),
    ensures
        r.leaves().len() == a.leaves().len(),
        forall|i: int|
            0 <= i < a.leaves().len() ==> #[trigger] r.leaves()[i] == a.leaves()[i].spec_add(
                b.leaves()[i],
            ),
{
    a.lemma_leaf_count();
    r.lemma_leaf_count();
    assert forall|i: int| 0 <= i < a.leaves().len() implies #[trigger] r.leaves()[i]
        == a.leaves()[i].spec_add(b.leaves()[i]) by {
        assert(call_ensures(f, (&a.leaves()[i], &b.leaves()[i]), r.leaves()[i]));
    }
}

/// Adding `x` to the all-zero value gives `x` back, for every `x` whose
/// scalars `s` all satisfy `0 + s == s`: if `z` is `all(0)`, `f` adds its
/// arguments and `r` is what `z.binary_operation(x, f)` returned, then `r`
/// has the same scalars as `x`.
pub proof fn lemma_zero_plus<T: Real, V: ValueSet<T>, F: Fn(&T, &T) -> T>(z: V, x: V, f: F, r: V)
    requires
        z.shaped(),
        x.shaped(),
        r.shaped(),
        forall|i: int| 0 <= i < V::leaf_count() ==> #[trigger] z.leaves()[i] == T::spec_zero(),
        forall|i: int|
            0 <= i < V::leaf_count() ==> T::spec_zero().spec_add(#[trigger] x.leaves()[i])
                == x.leaves()[i],
        forall|a: &T, b: &T, c: T| #[trigger] call_ensures(f, (a, b), c) ==> c == a.spec_add(*b),
        forall|i: int|
            0 <= i < V::leaf_count() ==> call_ensures(
                f,
                (&z.leaves()[i], &x.leaves()[i]),
                #[trigger] r.leaves()[i],
            ),
    ensures
        r.leaves() == x.leaves(),
{
    lemma_binary_addition(z, x, f, r);
    x.lemma_leaf_count();
    z.lemma_leaf_count();
    assert forall|i: int| 0 <= i < x.leaves().len() implies #[trigger] r.leaves()[i]
        == x.leaves()[i] by {
        assert(z.leaves()[i] == T::spec_zero());
        assert(r.leaves()[i] == z.leaves()[i].spec_add(x.leaves()[i]));
    }
    assert(r.leaves() =~= x.leaves());
}

} // verus!
