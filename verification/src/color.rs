use vstd::prelude::*;
use crate::scalar::{approx_eq, is_close, Num, Real};
use std::ops::{Add, Mul, Sub};

verus! {

/// The red, green and blue shares of a colour.
#[derive(Clone, Copy, Debug)]
pub struct Color<T>(pub T, pub T, pub T);

impl<T> Color<T> {
    /// The colour with the shares `r`, `g` and `b`.
    pub fn new(r: T, g: T, b: T) -> (c: Self)
        ensures
            c == Color(r, g, b),
    {
        Color(r, g, b)
    }
}

impl<A: Copy> Color<A> {
    /// The colour whose shares are what `f` returns for the shares of `self`.
    pub fn fmap<F, B>(&self, f: F) -> (c: Color<B>) where F: Fn(A) -> B
        requires
            call_requires(f, (self.0,)),
            call_requires(f, (self.1,)),
            call_requires(f, (self.2,)),
        ensures
            call_ensures(f, (self.0,), c.0),
            call_ensures(f, (self.1,), c.1),
            call_ensures(f, (self.2,), c.2),
    {
        Color(f(self.0), f(self.1), f(self.2))
    }
}

impl<T: Num> Color<T> {
    /// The colour without any light.
    pub open spec fn black() -> Color<T> {
        Color(T::zero_spec(), T::zero_spec(), T::zero_spec())
    }

    /// The sum share by share.
    pub open spec fn plus_spec(self, other: Color<T>) -> Color<T> {
        Color(self.0.add_spec(other.0), self.1.add_spec(other.1), self.2.add_spec(other.2))
    }

    /// The difference share by share.
    pub open spec fn minus_spec(self, other: Color<T>) -> Color<T> {
        Color(self.0.sub_spec(other.0), self.1.sub_spec(other.1), self.2.sub_spec(other.2))
    }

    /// Each share times `k`.
    pub open spec fn scaled_spec(self, k: T) -> Color<T> {
        Color(self.0.mul_spec(k), self.1.mul_spec(k), self.2.mul_spec(k))
    }

    /// The product share by share.
    pub open spec fn blended_spec(self, other: Color<T>) -> Color<T> {
        Color(self.0.mul_spec(other.0), self.1.mul_spec(other.1), self.2.mul_spec(other.2))
    }

    /// The sum share by share.
    pub fn plus(self, other: Color<T>) -> (r: Color<T>)
        ensures
            r == self.plus_spec(other),
    {
        Color(self.0.add(other.0), self.1.add(other.1), self.2.add(other.2))
    }

    /// The difference share by share.
    pub fn minus(self, other: Color<T>) -> (r: Color<T>)
        ensures
            r == self.minus_spec(other),
    {
        Color(self.0.sub(other.0), self.1.sub(other.1), self.2.sub(other.2))
    }

    /// Each share times `k`.
    pub fn scaled(self, k: T) -> (r: Color<T>)
        ensures
            r == self.scaled_spec(k),
    {
        Color(self.0.mul(k), self.1.mul(k), self.2.mul(k))
    }

    /// The product share by share.
    pub fn blended(self, other: Color<T>) -> (r: Color<T>)
        ensures
            r == self.blended_spec(other),
    {
        Color(self.0.mul(other.0), self.1.mul(other.1), self.2.mul(other.2))
    }
}

impl<T: Real> Color<T> {
    /// Every share of `self` is within the tolerance of that of `other`.
    pub open spec fn approx(self, other: Color<T>) -> bool {
        &&& approx_eq(self.0, other.0)
        &&& approx_eq(self.1, other.1)
        &&& approx_eq(self.2, other.2)
    }
}

impl<T: Real> Color<T> {
    /// Whether every share is within the tolerance of that of `other`.
    pub fn is_close_to(&self, other: &Color<T>) -> (r: bool)
        ensures
            r == self.approx(*other),
    {
        is_close(self.0, other.0) && is_close(self.1, other.1) && is_close(self.2, other.2)
    }
}

impl<T: Real> PartialEq for Color<T> {
    fn eq(&self, other: &Color<T>) -> (r: bool) {
        self.is_close_to(other)
    }
}

impl<T: Real> vstd::std_specs::cmp::PartialEqSpecImpl for Color<T> {
    open spec fn obeys_eq_spec() -> bool {
        true
    }

    open spec fn eq_spec(&self, other: &Color<T>) -> bool {
        self.approx(*other)
    }
}

impl<T: Num> Add<Color<T>> for Color<T> {
    type Output = Color<T>;

    fn add(self, other: Color<T>) -> (r: Color<T>) {
        self.plus(other)
    }
}

impl<T: Num> vstd::std_specs::ops::AddSpecImpl<Color<T>> for Color<T> {
    open spec fn obeys_add_spec() -> bool {
        true
    }

    open spec fn add_req(self, other: Color<T>) -> bool {
        true
    }

    open spec fn add_spec(self, other: Color<T>) -> Color<T> {
        self.plus_spec(other)
    }
}

impl<T: Num> Sub<Color<T>> for Color<T> {
    type Output = Color<T>;

    fn sub(self, other: Color<T>) -> (r: Color<T>) {
        self.minus(other)
    }
}

impl<T: Num> vstd::std_specs::ops::SubSpecImpl<Color<T>> for Color<T> {
    open spec fn obeys_sub_spec() -> bool {
        true
    }

    open spec fn sub_req(self, other: Color<T>) -> bool {
        true
    }

    open spec fn sub_spec(self, other: Color<T>) -> Color<T> {
        self.minus_spec(other)
    }
}

impl<T: Num> Mul<T> for Color<T> {
    type Output = Color<T>;

    fn mul(self, other: T) -> (r: Color<T>) {
        self.scaled(other)
    }
}

impl<T: Num> vstd::std_specs::ops::MulSpecImpl<T> for Color<T> {
    open spec fn obeys_mul_spec() -> bool {
        true
    }

    open spec fn mul_req(self, other: T) -> bool {
        true
    }

    open spec fn mul_spec(self, other: T) -> Color<T> {
        self.scaled_spec(other)
    }
}

impl<T: Num> Mul<Color<T>> for Color<T> {
    type Output = Color<T>;

    fn mul(self, other: Color<T>) -> (r: Color<T>) {
        self.blended(other)
    }
}

impl<T: Num> vstd::std_specs::ops::MulSpecImpl<Color<T>> for Color<T> {
    open spec fn obeys_mul_spec() -> bool {
        true
    }

    open spec fn mul_req(self, other: Color<T>) -> bool {
        true
    }

    open spec fn mul_spec(self, other: Color<T>) -> Color<T> {
        self.blended_spec(other)
    }
}

} // verus!
