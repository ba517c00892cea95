use vstd::prelude::*;

verus! {

/// A scalar with the operations of a ring and an equality test.
///
/// Every operation is a function of its operands: the executable method
/// returns the value that the specification function of the same name gives.
/// Nothing else is claimed of an implementation; the algebra built on this
/// trait is stated over these specification functions.
pub trait Num: Copy {
    spec fn zero_spec() -> Self;

    spec fn one_spec() -> Self;

    spec fn add_spec(self, rhs: Self) -> Self;

    spec fn sub_spec(self, rhs: Self) -> Self;

    spec fn mul_spec(self, rhs: Self) -> Self;

    spec fn eq_spec(self, rhs: Self) -> bool;

    fn zero() -> (r: Self)
        ensures
            r == Self::zero_spec(),
    ;

    fn one() -> (r: Self)
        ensures
            r == Self::one_spec(),
    ;

    fn add(self, rhs: Self) -> (r: Self)
        ensures
            r == self.add_spec(rhs),
    ;

    fn sub(self, rhs: Self) -> (r: Self)
        ensures
            r == self.sub_spec(rhs),
    ;

    fn mul(self, rhs: Self) -> (r: Self)
        ensures
            r == self.mul_spec(rhs),
    ;

    fn eq(self, rhs: Self) -> (r: bool)
        ensures
            r == self.eq_spec(rhs),
    ;
}

/// A scalar that approximates the real numbers: division, negation, an
/// order, a tolerance, and the elementary functions that the geometry needs.
///
/// As with `Num`, each method returns what its specification function names.
pub trait Real: Num {
    spec fn from_usize_spec(n: usize) -> Self;

    spec fn epsilon_spec() -> Self;

    spec fn neg_spec(self) -> Self;

    spec fn div_spec(self, rhs: Self) -> Self;

    spec fn abs_spec(self) -> Self;

    spec fn sqrt_spec(self) -> Self;

    spec fn sin_spec(self) -> Self;

    spec fn cos_spec(self) -> Self;

    spec fn tan_spec(self) -> Self;

    spec fn powf_spec(self, exponent: Self) -> Self;

    spec fn lt_spec(self, rhs: Self) -> bool;

    spec fn le_spec(self, rhs: Self) -> bool;

    spec fn to_u32_spec(self) -> u32;

    fn from_usize(n: usize) -> (r: Self)
        ensures
            r == Self::from_usize_spec(n),
    ;

    fn epsilon() -> (r: Self)
        ensures
            r == Self::epsilon_spec(),
    ;

    fn neg(self) -> (r: Self)
        ensures
            r == self.neg_spec(),
    ;

    fn div(self, rhs: Self) -> (r: Self)
        ensures
            r == self.div_spec(rhs),
    ;

    fn abs(self) -> (r: Self)
        ensures
            r == self.abs_spec(),
    ;

    fn sqrt(self) -> (r: Self)
        ensures
            r == self.sqrt_spec(),
    ;

    fn sin(self) -> (r: Self)
        ensures
            r == self.sin_spec(),
    ;

    fn cos(self) -> (r: Self)
        ensures
            r == self.cos_spec(),
    ;

    fn tan(self) -> (r: Self)
        ensures
            r == self.tan_spec(),
    ;

    fn powf(self, exponent: Self) -> (r: Self)
        ensures
            r == self.powf_spec(exponent),
    ;

    fn lt(self, rhs: Self) -> (r: bool)
        ensures
            r == self.lt_spec(rhs),
    ;

    fn le(self, rhs: Self) -> (r: bool)
        ensures
            r == self.le_spec(rhs),
    ;

    /// The whole number that stands for the scalar.
    fn to_u32(self) -> (r: u32)
        ensures
            r == self.to_u32_spec(),
    ;
}

/// Equality up to the tolerance: the absolute difference is at most epsilon.
pub open spec fn approx_eq<T: Real>(a: T, b: T) -> bool {
    a.sub_spec(b).abs_spec().le_spec(T::epsilon_spec())
}

/// Tests whether two scalars differ by at most the tolerance.
pub fn is_close<T: Real>(a: T, b: T) -> (r: bool)
    ensures
        r == approx_eq(a, b),
{
    a.sub(b).abs().le(T::epsilon())
}

/// The quotient of two whole numbers.
pub open spec fn ratio_spec<T: Real>(n: usize, d: usize) -> T {
    T::from_usize_spec(n).div_spec(T::from_usize_spec(d))
}

/// The scalar nearest to `n` divided by `d`.
pub fn ratio<T: Real>(n: usize, d: usize) -> (r: T)
    ensures
        r == ratio_spec::<T>(n, d),
{
    T::from_usize(n).div(T::from_usize(d))
}

/// No scalar is less than one that is less than it.
pub open spec fn lt_is_asymmetric<T: Real>() -> bool {
    forall|a: T, b: T| #[trigger] a.lt_spec(b) ==> !b.lt_spec(a)
}

/// A scalar that is less than a second one is less than every scalar that
/// the second one is less than.
pub open spec fn lt_is_transitive<T: Real>() -> bool {
    forall|a: T, b: T, c: T| #[trigger] a.lt_spec(b) && #[trigger] b.lt_spec(c) ==> a.lt_spec(c)
}

/// Zero and one are neutral for addition and multiplication, and zero
/// absorbs under multiplication, for every value of `T`.
pub open spec fn has_identities<T: Num>() -> bool {
    &&& forall|a: T| #[trigger] T::zero_spec().add_spec(a) == a
    &&& forall|a: T| #[trigger] a.add_spec(T::zero_spec()) == a
    &&& forall|a: T| #[trigger] T::one_spec().mul_spec(a) == a
    &&& forall|a: T| #[trigger] a.mul_spec(T::one_spec()) == a
    &&& forall|a: T| #[trigger] T::zero_spec().mul_spec(a) == T::zero_spec()
    &&& forall|a: T| #[trigger] a.mul_spec(T::zero_spec()) == T::zero_spec()
}

impl Num for i32 {
    open spec fn zero_spec() -> i32 {
        0i32
    }

    open spec fn one_spec() -> i32 {
        1i32
    }

    open spec fn add_spec(self, rhs: i32) -> i32 {
        self.wrapping_add(rhs)
    }

    open spec fn sub_spec(self, rhs: i32) -> i32 {
        self.wrapping_sub(rhs)
    }

    open spec fn mul_spec(self, rhs: i32) -> i32 {
        self.wrapping_mul(rhs)
    }

    open spec fn eq_spec(self, rhs: i32) -> bool {
        self == rhs
    }

    fn zero() -> (r: i32) {
        0i32
    }

    fn one() -> (r: i32) {
        1i32
    }

    fn add(self, rhs: i32) -> (r: i32) {
        self.wrapping_add(rhs)
    }

    fn sub(self, rhs: i32) -> (r: i32) {
        self.wrapping_sub(rhs)
    }

    fn mul(self, rhs: i32) -> (r: i32) {
        self.wrapping_mul(rhs)
    }

    fn eq(self, rhs: i32) -> (r: bool) {
        self == rhs
    }
}

impl Num for i64 {
    open spec fn zero_spec() -> i64 {
        0i64
    }

    open spec fn one_spec() -> i64 {
        1i64
    }

    open spec fn add_spec(self, rhs: i64) -> i64 {
        self.wrapping_add(rhs)
    }

    open spec fn sub_spec(self, rhs: i64) -> i64 {
        self.wrapping_sub(rhs)
    }

    open spec fn mul_spec(self, rhs: i64) -> i64 {
        self.wrapping_mul(rhs)
    }

    open spec fn eq_spec(self, rhs: i64) -> bool {
        self == rhs
    }

    fn zero() -> (r: i64) {
        0i64
    }

    fn one() -> (r: i64) {
        1i64
    }

    fn add(self, rhs: i64) -> (r: i64) {
        self.wrapping_add(rhs)
    }

    fn sub(self, rhs: i64) -> (r: i64) {
        self.wrapping_sub(rhs)
    }

    fn mul(self, rhs: i64) -> (r: i64) {
        self.wrapping_mul(rhs)
    }

    fn eq(self, rhs: i64) -> (r: bool) {
        self == rhs
    }
}

/// Wrapping 32-bit integers have the neutral and absorbing elements.
pub proof fn lemma_i32_identities()
    ensures
        has_identities::<i32>(),
{
    assert forall|a: i32| #[trigger] 1i32.wrapping_mul(a) == a by {
        assert(1 * a == a) by (nonlinear_arith);
    }
    assert forall|a: i32| #[trigger] a.wrapping_mul(1i32) == a by {
        assert(a * 1 == a) by (nonlinear_arith);
    }
    assert forall|a: i32| #[trigger] 0i32.wrapping_mul(a) == 0i32 by {
        assert(0 * a == 0) by (nonlinear_arith);
    }
    assert forall|a: i32| #[trigger] a.wrapping_mul(0i32) == 0i32 by {
        assert(a * 0 == 0) by (nonlinear_arith);
    }
}

/// Wrapping 64-bit integers have the neutral and absorbing elements.
pub proof fn lemma_i64_identities()
    ensures
        has_identities::<i64>(),
{
    assert forall|a: i64| #[trigger] 1i64.wrapping_mul(a) == a by {
        assert(1 * a == a) by (nonlinear_arith);
    }
    assert forall|a: i64| #[trigger] a.wrapping_mul(1i64) == a by {
        assert(a * 1 == a) by (nonlinear_arith);
    }
    assert forall|a: i64| #[trigger] 0i64.wrapping_mul(a) == 0i64 by {
        assert(0 * a == 0) by (nonlinear_arith);
    }
    assert forall|a: i64| #[trigger] a.wrapping_mul(0i64) == 0i64 by {
        assert(a * 0 == 0) by (nonlinear_arith);
    }
}

} // verus!
