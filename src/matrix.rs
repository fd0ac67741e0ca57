use vstd::prelude::*;

use crate::scalar::Real;

verus! {

/// `a[0]*b[0] + ... + a[k-1]*b[k-1]`, accumulated left to right from zero.
pub open spec fn dot_prefix<T: Real>(a: Seq<T>, b: Seq<T>, k: nat) -> T
    decreases k,
{
    if k == 0 {
        T::spec_zero()
    } else {
        dot_prefix(a, b, (k - 1) as nat).spec_add(a[k - 1].spec_mul(b[k - 1]))
    }
}

/// The dot product of two sequences of the same length.
pub open spec fn dot<T: Real>(a: Seq<T>, b: Seq<T>) -> T {
    dot_prefix(a, b, a.len())
}

/// Entry `(i, j)` of a row-major sequence with `cols` columns.
pub open spec fn flat_at<T>(s: Seq<T>, cols: int, i: int, j: int) -> T {
    s[i * cols + j]
}

/// Position facts about row-major indexing.
pub proof fn lemma_flat_index(i: int, j: int, rows: int, cols: int)
    requires
        0 <= i < rows,
        0 <= j < cols,
    ensures
        0 <= i * cols + j < rows * cols,
        i * cols + j < (i + 1) * cols,
        (i + 1) * cols == i * cols + cols,
        (i + 1) * cols <= rows * cols,
{
    assert(0 <= i * cols) by (nonlinear_arith)
        requires
            0 <= i,
            0 <= cols,
    ;
    assert((i + 1) * cols == i * cols + cols) by (nonlinear_arith);
    assert((i + 1) * cols <= rows * cols) by (nonlinear_arith)
        requires
            i + 1 <= rows,
            0 <= cols,
    ;
}

/// Moving to the next row adds one row's width.
pub proof fn lemma_next_row(i: int, cols: int)
    ensures
        (i + 1) * cols == i * cols + cols,
{
    assert((i + 1) * cols == i * cols + cols) by (nonlinear_arith);
}

/// Two distinct positions of a row-major layout are distinct indices.
pub proof fn lemma_flat_index_order(p: int, q: int, i: int, j: int, cols: int)
    requires
        0 <= p,
        0 <= q < cols,
        0 <= i,
        0 <= j < cols,
        p < i || (p == i && q < j),
    ensures
        p * cols + q < i * cols + j,
{
    if p < i {
        assert(p * cols + cols <= i * cols) by (nonlinear_arith)
            requires
                p < i,
                0 <= cols,
        ;
    }
}

/// A dense `R x C` matrix, stored row by row.
pub struct Matrix<T, const R: usize, const C: usize> {
    data: Vec<T>,
}

/// A column vector of `N` entries.
pub type Vector<T, const N: usize> = Matrix<T, N, 1>;

impl<T, const R: usize, const C: usize> View for Matrix<T, R, C> {
    type V = Seq<T>;

    /// The entries in row-major order.
    closed spec fn view(&self) -> Seq<T> {
        self.data@
    }
}

impl<T: Real, const R: usize, const C: usize> Matrix<T, R, C> {
    /// The entry count matches the dimensions.
    pub open spec fn wf(&self) -> bool {
        self@.len() == R * C
    }

    /// Entry `(i, j)`.
    pub open spec fn at(&self, i: int, j: int) -> T {
        flat_at(self@, C as int, i, j)
    }

    /// Row `i`.
    pub open spec fn row(&self, i: int) -> Seq<T> {
        Seq::new(C as nat, |t: int| self.at(i, t))
    }

    /// Column `j`.
    pub open spec fn col(&self, j: int) -> Seq<T> {
        Seq::new(R as nat, |t: int| self.at(t, j))
    }

    /// Builds a matrix from its entries in row-major order.
    pub fn from_vec(data: Vec<T>) -> (r: Self)
        requires
            data@.len() == R * C,
        ensures
            r.wf(),
            r@ == data@,
    {
        Matrix { data }
    }

    /// The entries in row-major order.
    pub fn as_vec(&self) -> (r: &Vec<T>)
        ensures
            r@ == self@,
    {
        &self.data
    }

    /// Entry `(i, j)`.
    pub fn get(&self, i: usize, j: usize) -> (r: T)
        requires
            self.wf(),
            i < R,
            j < C,
        ensures
            r == self.at(i as int, j as int),
    {
        let len = self.data.len();
        proof {
            lemma_flat_index(i as int, j as int, R as int, C as int);
            assert(i * C + j < len);
        }
        self.data[i * C + j]
    }

    /// A matrix whose entry `(i, j)` is `v` when `i == j` and `off` elsewhere.
    pub fn diagonal_from(v: &Vec<T>, off: T) -> (r: Self)
        requires
            v@.len() == R,
            R == C,
        ensures
            r.wf(),
            forall|i: int, j: int|
                0 <= i < R && 0 <= j < C ==> #[trigger] r.at(i, j) == if i == j {
                    v@[i]
                } else {
                    off
                },
    {
        let mut data: Vec<T> = Vec::new();
        let mut i: usize = 0;
        while i < R
            invariant
                i <= R,
                R == C,
                v@.len() == R,
                data@.len() == i * C,
                forall|p: int, q: int|
                    0 <= p < i && 0 <= q < C ==> #[trigger] flat_at(data@, C as int, p, q) == if p
                        == q {
                        v@[p]
                    } else {
                        off
                    },
            decreases R - i,
        {
            let mut j: usize = 0;
            while j < C
                invariant
                    i < R,
                    j <= C,
                    R == C,
                    v@.len() == R,
                    data@.len() == i * C + j,
                    forall|p: int, q: int|
                        (0 <= p < i && 0 <= q < C) || (p == i && 0 <= q < j)
                            ==> #[trigger] flat_at(data@, C as int, p, q) == if p == q {
                            v@[p]
                        } else {
                            off
                        },
                decreases C - j,
            {
                let x = if i == j {
                    v[i]
                } else {
                    off
                };
                let ghost old_data = data@;
                data.push(x);
                proof {
                    lemma_flat_index(i as int, j as int, R as int, C as int);
                    assert forall|p: int, q: int|
                        (0 <= p < i && 0 <= q < C) || (p == i && 0 <= q < j + 1) implies #[trigger] flat_at(
                        data@,
                        C as int,
                        p,
                        q,
                    ) == if p == q {
                        v@[p]
                    } else {
                        off
                    } by {
                        if p == i && q == j {
                        } else {
                            lemma_flat_index_order(p, q, i as int, j as int, C as int);
                            assert(flat_at(data@, C as int, p, q) == flat_at(old_data, C as int, p, q));
                        }
                    }
                }
                j = j + 1;
            }
            proof {
                lemma_next_row(i as int, C as int);
            }
            i = i + 1;
        }
        Matrix { data }
    }
    /// The matrix product `self * other`.
    pub fn mul<const K: usize>(&self, other: &Matrix<T, C, K>) -> (r: Matrix<T, R, K>)
        requires
            self.wf(),
            other.wf(),
        ensures
            r.wf(),
            forall|i: int, j: int|
                0 <= i < R && 0 <= j < K ==> #[trigger] r.at(i, j) == dot(self.row(i), other.col(j)),
    {
        let mut data: Vec<T> = Vec::new();
        let mut i: usize = 0;
        while i < R
            invariant
                i <= R,
                self.wf(),
                other.wf(),
                data@.len() == i * K,
                forall|p: int, q: int|
                    0 <= p < i && 0 <= q < K ==> #[trigger] flat_at(data@, K as int, p, q) == dot(
                        self.row(p),
                        other.col(q),
                    ),
            decreases R - i,
        {
            let mut j: usize = 0;
            while j < K
                invariant
                    i < R,
                    j <= K,
                    self.wf(),
                    other.wf(),
                    data@.len() == i * K + j,
                    forall|p: int, q: int|
                        (0 <= p < i && 0 <= q < K) || (p == i && 0 <= q < j)
                            ==> #[trigger] flat_at(data@, K as int, p, q) == dot(
                            self.row(p),
                            other.col(q),
                        ),
                decreases K - j,
            {
                let mut acc = T::zero();
                let mut t: usize = 0;
                while t < C
                    invariant
                        i < R,
                        j < K,
                        t <= C,
                        self.wf(),
                        other.wf(),
                        acc == dot_prefix(self.row(i as int), other.col(j as int), t as nat),
                    decreases C - t,
                {
                    let a = self.get(i, t);
                    let b = other.get(t, j);
                    acc = acc.add(a.mul(b));
                    t = t + 1;
                }
                let ghost old_data = data@;
                data.push(acc);
                proof {
                    lemma_flat_index(i as int, j as int, R as int, K as int);
                    assert forall|p: int, q: int|
                        (0 <= p < i && 0 <= q < K) || (p == i && 0 <= q < j + 1) implies #[trigger] flat_at(
                        data@,
                        K as int,
                        p,
                        q,
                    ) == dot(self.row(p), other.col(q)) by {
                        if p == i && q == j {
                        } else {
                            lemma_flat_index_order(p, q, i as int, j as int, K as int);
                            assert(flat_at(data@, K as int, p, q) == flat_at(old_data, K as int, p, q));
                        }
                    }
                }
                j = j + 1;
            }
            proof {
                lemma_next_row(i as int, K as int);
            }
            i = i + 1;
        }
        let r = Matrix { data };
        assert forall|i: int, j: int| 0 <= i < R && 0 <= j < K implies #[trigger] r.at(i, j) == dot(
            self.row(i),
            other.col(j),
        ) by {
            assert(flat_at(data@, K as int, i, j) == dot(self.row(i), other.col(j)));
        }
        r
    }

    /// The outer product `a * b^T`.
    pub fn outer(a: &Vector<T, R>, b: &Vector<T, C>) -> (r: Self)
        requires
            a.wf(),
            b.wf(),
        ensures
            r.wf(),
            forall|i: int, j: int|
                0 <= i < R && 0 <= j < C ==> #[trigger] r.at(i, j) == a@[i].spec_mul(b@[j]),
    {
        proof {
            lemma_vector_col(a);
            lemma_vector_col(b);
        }
        let mut data: Vec<T> = Vec::new();
        let mut i: usize = 0;
        while i < R
            invariant
                i <= R,
                a.wf(),
                b.wf(),
                data@.len() == i * C,
                forall|p: int, q: int|
                    0 <= p < i && 0 <= q < C ==> #[trigger] flat_at(data@, C as int, p, q)
                        == a@[p].spec_mul(b@[q]),
            decreases R - i,
        {
            let x = a.get(i, 0);
            let mut j: usize = 0;
            while j < C
                invariant
                    i < R,
                    j <= C,
                    a.wf(),
                    b.wf(),
                    x == a@[i as int],
                    data@.len() == i * C + j,
                    forall|p: int, q: int|
                        (0 <= p < i && 0 <= q < C) || (p == i && 0 <= q < j)
                            ==> #[trigger] flat_at(data@, C as int, p, q) == a@[p].spec_mul(b@[q]),
                decreases C - j,
            {
                let y = b.get(j, 0);
                let ghost old_data = data@;
                data.push(x.mul(y));
                proof {
                    lemma_flat_index(i as int, j as int, R as int, C as int);
                    assert forall|p: int, q: int|
                        (0 <= p < i && 0 <= q < C) || (p == i && 0 <= q < j + 1) implies #[trigger] flat_at(
                        data@,
                        C as int,
                        p,
                        q,
                    ) == a@[p].spec_mul(b@[q]) by {
                        if p == i && q == j {
                        } else {
                            lemma_flat_index_order(p, q, i as int, j as int, C as int);
                            assert(flat_at(data@, C as int, p, q) == flat_at(old_data, C as int, p, q));
                        }
                    }
                }
                j = j + 1;
            }
            proof {
                lemma_next_row(i as int, C as int);
            }
            i = i + 1;
        }
        let r = Matrix { data };
        assert forall|i: int, j: int| 0 <= i < R && 0 <= j < C implies #[trigger] r.at(i, j) == a@[
            i
        ].spec_mul(b@[j]) by {
            assert(flat_at(data@, C as int, i, j) == a@[i].spec_mul(b@[j]));
        }
        r
    }

    /// The transpose of `self`.
    pub fn transpose(&self) -> (r: Matrix<T, C, R>)
        requires
            self.wf(),
        ensures
            r.wf(),
            forall|i: int, j: int| 0 <= i < C && 0 <= j < R ==> #[trigger] r.at(i, j) == self.at(j, i),
    {
        let mut data: Vec<T> = Vec::new();
        let mut i: usize = 0;
        while i < C
            invariant
                i <= C,
                self.wf(),
                data@.len() == i * R,
                forall|p: int, q: int|
                    0 <= p < i && 0 <= q < R ==> #[trigger] flat_at(data@, R as int, p, q) == self.at(q, p),
            decreases C - i,
        {
            let mut j: usize = 0;
            while j < R
                invariant
                    i < C,
                    j <= R,
                    self.wf(),
                    data@.len() == i * R + j,
                    forall|p: int, q: int|
                        (0 <= p < i && 0 <= q < R) || (p == i && 0 <= q < j)
                            ==> #[trigger] flat_at(data@, R as int, p, q) == self.at(q, p),
                decreases R - j,
            {
                let x = self.get(j, i);
                let ghost old_data = data@;
                data.push(x);
                proof {
                    lemma_flat_index(i as int, j as int, C as int, R as int);
                    assert forall|p: int, q: int|
                        (0 <= p < i && 0 <= q < R) || (p == i && 0 <= q < j + 1) implies #[trigger] flat_at(
                        data@,
                        R as int,
                        p,
                        q,
                    ) == self.at(q, p) by {
                        if p == i && q == j {
                        } else {
                            lemma_flat_index_order(p, q, i as int, j as int, R as int);
                            assert(flat_at(data@, R as int, p, q) == flat_at(old_data, R as int, p, q));
                        }
                    }
                }
                j = j + 1;
            }
            proof {
                lemma_next_row(i as int, R as int);
            }
            i = i + 1;
        }
        let r = Matrix { data };
        assert forall|i: int, j: int| 0 <= i < C && 0 <= j < R implies #[trigger] r.at(i, j) == self.at(
            j,
            i,
        ) by {
            assert(flat_at(data@, R as int, i, j) == self.at(j, i));
        }
        r
    }
}

/// A column vector's only column is its sequence of entries.
pub proof fn lemma_vector_col<T: Real, const N: usize>(v: &Vector<T, N>)
    requires
        v.wf(),
    ensures
        v.col(0) == v@,
        forall|i: int| 0 <= i < N ==> #[trigger] v.at(i, 0) == v@[i],
{
    assert(v.col(0) =~= v@);
}

impl<T: Real, const R: usize, const C: usize> Clone for Matrix<T, R, C> {
    /// A matrix with the same entries.
    fn clone(&self) -> (r: Self)
        ensures
            r@ == self@,
    {
        let mut data: Vec<T> = Vec::new();
        let mut k: usize = 0;
        while k < self.data.len()
            invariant
                k <= self.data@.len(),
                data@ == self.data@.take(k as int),
            decreases self.data@.len() - k,
        {
            data.push(self.data[k]);
            k = k + 1;
            proof {
                assert(data@ =~= self.data@.take(k as int));
            }
        }
        assert(data@ =~= self.data@);
        Matrix { data }
    }
}

} // verus!
