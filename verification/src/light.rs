use vstd::prelude::*;
use crate::color::Color;
use crate::tuple::Tuple;

verus! {

/// A light without size, which shines alike in every direction and does
/// not fade with distance.
pub struct PointLight<T> {
    pub intensity: Color<T>,
    pub pos: Tuple<T>,
}

impl<T> PointLight<T> {
    /// The light of colour `intensity` at the point `pos`.
    pub fn new(intensity: Color<T>, pos: Tuple<T>) -> (r: Self)
        ensures
            r.intensity == intensity,
            r.pos == pos,
    {
        PointLight { intensity, pos }
    }
}

} // verus!
