use vstd::prelude::*;
use crate::matrix::{apply_spec, Matrix};
use crate::scalar::Real;
use crate::tuple::Tuple;

verus! {

/// A half-line: the point where it starts and the direction it takes.
#[derive(Debug)]
pub struct Ray<T> {
    pub origin: Tuple<T>,
    pub dir: Tuple<T>,
}

impl<T: Real> Ray<T> {
    /// The point reached after `t` steps of the direction.
    pub open spec fn pos_spec(self, t: T) -> Tuple<T> {
        self.origin.plus_spec(self.dir.scaled_spec(t))
    }

    /// The ray whose origin and direction are those of `self` under the
    /// grid `m`. The direction is left as long as `m` makes it.
    pub open spec fn transform_spec(self, m: Seq<Seq<T>>) -> Ray<T> {
        Ray { origin: apply_spec(m, self.origin), dir: apply_spec(m, self.dir) }
    }

    /// The ray from `origin` along `dir`, with the direction brought to
    /// length one.
    pub fn new(origin: Tuple<T>, dir: Tuple<T>) -> (r: Self)
        requires
            dir.is_vector(),
        ensures
            r == (Ray { origin, dir: dir.normalize_spec() }),
    {
        Ray { origin, dir: dir.normalize() }
    }

    /// The point reached after `t` steps of the direction.
    pub fn pos(&self, t: T) -> (p: Tuple<T>)
        ensures
            p == self.pos_spec(t),
    {
        self.origin.plus(self.dir.scaled(t))
    }

    /// The ray whose origin and direction are those of `self` under `m`. The
    /// direction is not brought back to length one.
    pub fn transform(&self, m: &Matrix<T>) -> (r: Self)
        requires
            m@.len() == 4,
            m@[0].len() <= 4,
        ensures
            r == self.transform_spec(m@),
    {
        Ray { origin: m.apply(self.origin), dir: m.apply(self.dir) }
    }
}

} // verus!
