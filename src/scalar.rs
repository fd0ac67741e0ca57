use vstd::prelude::*;

verus! {

/// The scalar field that networks are built from: in practice a 32- or
/// 64-bit float, implemented for a wrapper type by the user of the crate.
///
/// Each operation is tied to a spec function of the same meaning. The
/// default bodies of those spec functions (`arbitrary()`) name no value, so
/// for a generic scalar every `spec_*` function is uninterpreted: whatever an
/// implementation computes is its `spec_*` value. All that an implementation
/// promises is that each operation is a function of its arguments alone,
/// which holds of IEEE floating-point arithmetic except for the sign and
/// payload bits of a NaN result: Rust leaves those open, so where a NaN
/// arises the contracts hold only up to them. Proofs in this crate assume no
/// algebraic law (not even `0 + x == x`, false for `x == -0.0`), so every
/// contract states the exact sequence of scalar operations performed.
pub trait Real: Copy + Sized {
    /// The additive identity.
    open spec fn spec_zero() -> Self {
        arbitrary()
    }

    /// The multiplicative identity.
    open spec fn spec_one() -> Self {
        arbitrary()
    }

    /// The smallest positive value of the type.
    open spec fn spec_min_positive() -> Self {
        arbitrary()
    }

    /// `self + o`.
    open spec fn spec_add(self, o: Self) -> Self {
        arbitrary()
    }

    /// `self - o`.
    open spec fn spec_sub(self, o: Self) -> Self {
        arbitrary()
    }

    /// `self * o`.
    open spec fn spec_mul(self, o: Self) -> Self {
        arbitrary()
    }

    /// `self / o`.
    open spec fn spec_div(self, o: Self) -> Self {
        arbitrary()
    }

    /// `-self`.
    open spec fn spec_neg(self) -> Self {
        arbitrary()
    }

    /// `e^self`.
    open spec fn spec_exp(self) -> Self {
        arbitrary()
    }

    /// The square root of `self`.
    open spec fn spec_sqrt(self) -> Self {
        arbitrary()
    }

    /// Whether `self >= o`.
    open spec fn spec_ge(self, o: Self) -> bool {
        arbitrary()
    }

    fn zero() -> (r: Self)
        ensures
            r == Self::spec_zero(),
    ;

    fn one() -> (r: Self)
        ensures
            r == Self::spec_one(),
    ;

    fn min_positive() -> (r: Self)
        ensures
            r == Self::spec_min_positive(),
    ;

    fn add(self, o: Self) -> (r: Self)
        ensures
            r == self.spec_add(o),
    ;

    fn sub(self, o: Self) -> (r: Self)
        ensures
            r == self.spec_sub(o),
    ;

    fn mul(self, o: Self) -> (r: Self)
        ensures
            r == self.spec_mul(o),
    ;

    fn div(self, o: Self) -> (r: Self)
        ensures
            r == self.spec_div(o),
    ;

    fn neg(self) -> (r: Self)
        ensures
            r == self.spec_neg(),
    ;

    fn exp(self) -> (r: Self)
        ensures
            r == self.spec_exp(),
    ;

    fn sqrt(self) -> (r: Self)
        ensures
            r == self.spec_sqrt(),
    ;

    fn ge(self, o: Self) -> (r: bool)
        ensures
            r == self.spec_ge(o),
    ;
}

/// `2`, built as `1 + 1`.
pub open spec fn two<T: Real>() -> T {
    T::spec_one().spec_add(T::spec_one())
}

/// `0 + 1 + 1 + ... + 1` with `n` ones: the count of `n` items as a scalar.
pub open spec fn count_of<T: Real>(n: nat) -> T
    decreases n,
{
    if n == 0 {
        T::spec_zero()
    } else {
        count_of::<T>((n - 1) as nat).spec_add(T::spec_one())
    }
}

/// The integer `n` as a scalar, built as `0 + 1 + ... + 1`.
pub fn small_integer<T: Real>(n: u32) -> (r: T)
    ensures
        r == count_of::<T>(n as nat),
{
    let mut r = T::zero();
    let mut k: u32 = 0;
    while k < n
        invariant
            k <= n,
            r == count_of::<T>(k as nat),
        decreases n - k,
    {
        r = r.add(T::one());
        k = k + 1;
    }
    r
}

} // verus!
