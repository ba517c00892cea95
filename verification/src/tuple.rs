use vstd::prelude::*;
use crate::scalar::{approx_eq, is_close, Num, Real};
use std::ops::{Add, Div, Index, Mul, Neg, Sub};

verus! {

/// Four homogeneous coordinates. The last one is one for a point and zero
/// for a vector.
#[derive(Clone, Copy, Debug, Eq, PartialEq)]
pub struct Tuple<T>(pub T, pub T, pub T, pub T);

impl<T: Num> Tuple<T> {
    /// The last coordinate tests equal to zero.
    pub open spec fn is_vector_spec(self) -> bool {
        self.3.eq_spec(T::zero_spec())
    }

    /// Whether the tuple is a vector: its last coordinate tests equal to
    /// zero.
    #[verifier::when_used_as_spec(is_vector_spec)]
    pub fn is_vector(self) -> (r: bool)
        ensures
            r == self.is_vector_spec(),
    {
        self.3.eq(T::zero())
    }

    /// The coordinate at `idx`, counted from zero.
    pub open spec fn at(self, idx: int) -> T {
        if idx == 0 {
            self.0
        } else if idx == 1 {
            self.1
        } else if idx == 2 {
            self.2
        } else {
            self.3
        }
    }

    /// The sum coordinate by coordinate.
    pub open spec fn plus_spec(self, other: Tuple<T>) -> Tuple<T> {
        Tuple(
            self.0.add_spec(other.0),
            self.1.add_spec(other.1),
            self.2.add_spec(other.2),
            self.3.add_spec(other.3),
        )
    }

    /// The difference coordinate by coordinate.
    pub open spec fn minus_spec(self, other: Tuple<T>) -> Tuple<T> {
        Tuple(
            self.0.sub_spec(other.0),
            self.1.sub_spec(other.1),
            self.2.sub_spec(other.2),
            self.3.sub_spec(other.3),
        )
    }

    /// Each coordinate subtracted from zero.
    pub open spec fn negated_spec(self) -> Tuple<T> {
        Tuple(
            T::zero_spec().sub_spec(self.0),
            T::zero_spec().sub_spec(self.1),
            T::zero_spec().sub_spec(self.2),
            T::zero_spec().sub_spec(self.3),
        )
    }

    /// Each coordinate times `k`.
    pub open spec fn scaled_spec(self, k: T) -> Tuple<T> {
        Tuple(self.0.mul_spec(k), self.1.mul_spec(k), self.2.mul_spec(k), self.3.mul_spec(k))
    }

    /// The mirror image of `self` about the normal `n`.
    pub open spec fn reflect_spec(self, n: Tuple<T>) -> Tuple<T> {
        self.minus_spec(
            n.scaled_spec(T::one_spec().add_spec(T::one_spec())).scaled_spec(dot_spec(self, n)),
        )
    }

    /// The sum coordinate by coordinate.
    pub fn plus(self, other: Tuple<T>) -> (r: Tuple<T>)
        ensures
            r == self.plus_spec(other),
    {
        Tuple(self.0.add(other.0), self.1.add(other.1), self.2.add(other.2), self.3.add(other.3))
    }

    /// The difference coordinate by coordinate.
    pub fn minus(self, other: Tuple<T>) -> (r: Tuple<T>)
        ensures
            r == self.minus_spec(other),
    {
        Tuple(self.0.sub(other.0), self.1.sub(other.1), self.2.sub(other.2), self.3.sub(other.3))
    }

    /// Each coordinate subtracted from zero.
    pub fn negated(self) -> (r: Tuple<T>)
        ensures
            r == self.negated_spec(),
    {
        Tuple(
            T::zero().sub(self.0),
            T::zero().sub(self.1),
            T::zero().sub(self.2),
            T::zero().sub(self.3),
        )
    }

    /// Each coordinate times `k`.
    pub fn scaled(self, k: T) -> (r: Tuple<T>)
        ensures
            r == self.scaled_spec(k),
    {
        Tuple(self.0.mul(k), self.1.mul(k), self.2.mul(k), self.3.mul(k))
    }

    /// The coordinate at `idx`, counted from zero.
    pub fn get(&self, idx: usize) -> (r: &T)
        requires
            idx < 4,
        ensures
            *r == self.at(idx as int),
    {
        if idx == 0 {
            &self.0
        } else if idx == 1 {
            &self.1
        } else if idx == 2 {
            &self.2
        } else {
            &self.3
        }
    }

    /// The tuple of the four entries of `v`.
    pub fn new_vec(v: Vec<T>) -> (r: Self)
        requires
            v.len() == 4,
        ensures
            r == Tuple(v[0], v[1], v[2], v[3]),
    {
        Tuple(v[0], v[1], v[2], v[3])
    }

    /// The point at `x`, `y` and `z`.
    pub fn new_point(x: T, y: T, z: T) -> (r: Self)
        ensures
            r == Tuple(x, y, z, T::one_spec()),
    {
        Tuple(x, y, z, T::one())
    }

    /// The vector of `x`, `y` and `z`.
    pub fn new_vector(x: T, y: T, z: T) -> (r: Self)
        ensures
            r == Tuple(x, y, z, T::zero_spec()),
    {
        Tuple(x, y, z, T::zero())
    }

    /// The mirror image of `self` about the normal `n`.
    pub fn reflect(&self, n: &Tuple<T>) -> (r: Tuple<T>)
        requires
            self.is_vector(),
            n.is_vector(),
        ensures
            r == self.reflect_spec(*n),
    {
        self.minus(n.scaled(T::one().add(T::one())).scaled(dot(*self, *n)))
    }
}

impl<T: Real> Tuple<T> {
    /// Each coordinate divided by `k`.
    pub open spec fn divided_spec(self, k: T) -> Tuple<T> {
        Tuple(self.0.div_spec(k), self.1.div_spec(k), self.2.div_spec(k), self.3.div_spec(k))
    }

    /// The square root of the sum of the squares of the first three
    /// coordinates.
    pub open spec fn magnitude_spec(self) -> T {
        self.0.mul_spec(self.0).add_spec(self.1.mul_spec(self.1)).add_spec(
            self.2.mul_spec(self.2),
        ).sqrt_spec()
    }

    /// The tuple divided by its magnitude.
    pub open spec fn normalize_spec(self) -> Tuple<T> {
        self.divided_spec(self.magnitude_spec())
    }

    /// Every coordinate of `self` is within the tolerance of that of `other`.
    pub open spec fn approx(self, other: Tuple<T>) -> bool {
        &&& approx_eq(self.0, other.0)
        &&& approx_eq(self.1, other.1)
        &&& approx_eq(self.2, other.2)
        &&& approx_eq(self.3, other.3)
    }

    /// Each coordinate divided by `k`.
    pub fn divided(self, k: T) -> (r: Tuple<T>)
        ensures
            r == self.divided_spec(k),
    {
        Tuple(self.0.div(k), self.1.div(k), self.2.div(k), self.3.div(k))
    }

    /// The length of the vector.
    pub fn magnitude(self) -> (r: T)
        requires
            self.is_vector(),
        ensures
            r == self.magnitude_spec(),
    {
        self.0.mul(self.0).add(self.1.mul(self.1)).add(self.2.mul(self.2)).sqrt()
    }

    /// The vector divided by its length.
    pub fn normalize(self) -> (r: Tuple<T>)
        requires
            self.is_vector(),
        ensures
            r == self.normalize_spec(),
    {
        self.divided(self.magnitude())
    }

    /// Whether every coordinate is within the tolerance of that of `other`.
    pub fn eq_real(&self, other: &Tuple<T>) -> (r: bool)
        ensures
            r == self.approx(*other),
    {
        is_close(self.0, other.0) && is_close(self.1, other.1) && is_close(self.2, other.2)
            && is_close(self.3, other.3)
    }
}

/// The sum of the products of matching coordinates, all four of them.
pub open spec fn dot_spec<T: Num>(t1: Tuple<T>, t2: Tuple<T>) -> T {
    t1.0.mul_spec(t2.0).add_spec(t1.1.mul_spec(t2.1)).add_spec(t1.2.mul_spec(t2.2)).add_spec(
        t1.3.mul_spec(t2.3),
    )
}

/// The vector that stands at right angles on `t1` and `t2`.
pub open spec fn cross_spec<T: Num>(t1: Tuple<T>, t2: Tuple<T>) -> Tuple<T> {
    Tuple(
        t1.1.mul_spec(t2.2).sub_spec(t1.2.mul_spec(t2.1)),
        t1.2.mul_spec(t2.0).sub_spec(t1.0.mul_spec(t2.2)),
        t1.0.mul_spec(t2.1).sub_spec(t1.1.mul_spec(t2.0)),
        T::zero_spec(),
    )
}

/// The dot product of two vectors.
pub fn dot<T: Num>(t1: Tuple<T>, t2: Tuple<T>) -> (r: T)
    requires
        t1.is_vector(),
        t2.is_vector(),
    ensures
        r == dot_spec(t1, t2),
{
    t1.0.mul(t2.0).add(t1.1.mul(t2.1)).add(t1.2.mul(t2.2)).add(t1.3.mul(t2.3))
}

/// The cross product of two vectors.
pub fn cross<T: Num>(t1: Tuple<T>, t2: Tuple<T>) -> (r: Tuple<T>)
    requires
        t1.is_vector(),
        t2.is_vector(),
    ensures
        r == cross_spec(t1, t2),
{
    Tuple::new_vector(
        t1.1.mul(t2.2).sub(t1.2.mul(t2.1)),
        t1.2.mul(t2.0).sub(t1.0.mul(t2.2)),
        t1.0.mul(t2.1).sub(t1.1.mul(t2.0)),
    )
}

impl<T: Num> Add<Tuple<T>> for Tuple<T> {
    type Output = Tuple<T>;

    fn add(self, other: Tuple<T>) -> (r: Tuple<T>) {
        self.plus(other)
    }
}

impl<T: Num> vstd::std_specs::ops::AddSpecImpl<Tuple<T>> for Tuple<T> {
    open spec fn obeys_add_spec() -> bool {
        true
    }

    open spec fn add_req(self, other: Tuple<T>) -> bool {
        true
    }

    open spec fn add_spec(self, other: Tuple<T>) -> Tuple<T> {
        self.plus_spec(other)
    }
}

impl<T: Num> Sub<Tuple<T>> for Tuple<T> {
    type Output = Tuple<T>;

    fn sub(self, other: Tuple<T>) -> (r: Tuple<T>) {
        self.minus(other)
    }
}

impl<T: Num> vstd::std_specs::ops::SubSpecImpl<Tuple<T>> for Tuple<T> {
    open spec fn obeys_sub_spec() -> bool {
        true
    }

    open spec fn sub_req(self, other: Tuple<T>) -> bool {
        true
    }

    open spec fn sub_spec(self, other: Tuple<T>) -> Tuple<T> {
        self.minus_spec(other)
    }
}

impl<T: Num> Neg for Tuple<T> {
    type Output = Tuple<T>;

    fn neg(self) -> (r: Tuple<T>) {
        self.negated()
    }
}

impl<T: Num> vstd::std_specs::ops::NegSpecImpl for Tuple<T> {
    open spec fn obeys_neg_spec() -> bool {
        true
    }

    open spec fn neg_req(self) -> bool {
        true
    }

    open spec fn neg_spec(self) -> Tuple<T> {
        self.negated_spec()
    }
}

impl<T: Num> Mul<T> for Tuple<T> {
    type Output = Tuple<T>;

    fn mul(self, other: T) -> (r: Tuple<T>) {
        self.scaled(other)
    }
}

impl<T: Num> vstd::std_specs::ops::MulSpecImpl<T> for Tuple<T> {
    open spec fn obeys_mul_spec() -> bool {
        true
    }

    open spec fn mul_req(self, other: T) -> bool {
        true
    }

    open spec fn mul_spec(self, other: T) -> Tuple<T> {
        self.scaled_spec(other)
    }
}

impl<T: Real> Div<T> for Tuple<T> {
    type Output = Tuple<T>;

    fn div(self, other: T) -> (r: Tuple<T>) {
        self.divided(other)
    }
}

impl<T: Real> vstd::std_specs::ops::DivSpecImpl<T> for Tuple<T> {
    open spec fn obeys_div_spec() -> bool {
        true
    }

    open spec fn div_req(self, other: T) -> bool {
        true
    }

    open spec fn div_spec(self, other: T) -> Tuple<T> {
        self.divided_spec(other)
    }
}

impl<T: Num> Index<usize> for Tuple<T> {
    type Output = T;

    fn index(&self, idx: usize) -> (r: &T)
        ensures
            *r == self.at(idx as int),
    {
        self.get(idx)
    }
}

impl<T: Num> vstd::std_specs::core::IndexSpecImpl<usize> for Tuple<T> {
    open spec fn index_req(&self, idx: &usize) -> bool {
        *idx < 4
    }
}

} // verus!
