use vstd::prelude::*;
use crate::face::{Face, PerFace};
use crate::scalar::{Scalar, INFINITY, ONE};

verus! {

/// A box as one ray meets it: the ray parameter at which the ray crosses
/// the plane of each face, and the refractive index of what the box is
/// made of.
#[derive(Clone, Copy, Debug, PartialEq, Eq, Structural)]
pub struct Target {
    pub crossings: PerFace,
    pub refractive_index: Scalar,
}

/// What testing one ray against one box gave. A ray hits what lies ahead
/// of its origin: the distance of a hit is a number from zero up, short of
/// infinity, and that of a miss is infinity.
#[derive(Clone, Copy, Debug, PartialEq, Eq, Structural)]
pub struct Intersect {
    /// The face through whose plane the ray enters the box; `None` where it
    /// does not enter the box ahead of its origin.
    pub face: Option<Face>,
    /// How far along the ray the box is entered.
    pub distance: Scalar,
    /// The refractive index of what the box is made of.
    pub refractive_index: Scalar,
}

impl Intersect {
    /// Whether the ray hits the box.
    pub open spec fn spec_is_intersecting(self) -> bool {
        self.face is Some
    }

    /// The record of a miss: infinitely far, and of a material that does
    /// not bend light.
    pub open spec fn spec_empty() -> Intersect {
        Intersect { face: None, distance: Scalar::Num(INFINITY), refractive_index: Scalar::Num(0) }
    }

    /// Whether the box is hit between the ray's origin and `limit`: at a
    /// distance from zero up that is less than `limit`. A hit recorded at a
    /// distance below zero, or at none, is a hit of nothing.
    pub open spec fn spec_before(self, limit: Scalar) -> bool {
        self.is_intersecting() && self.distance.is_distance() && self.distance.lt(limit)
    }

    /// Whether the box is hit ahead of the ray's origin, at any distance.
    pub open spec fn in_reach(self) -> bool {
        self.before(Scalar::Num(INFINITY))
    }

    /// Whether the box bends the light that enters it: its refractive index
    /// is greater than one.
    pub open spec fn spec_bends(self) -> bool {
        self.refractive_index.gt(Scalar::Num(ONE))
    }

    /// The record of a hit through `face` at `distance`. It counts as a hit
    /// of something only where `distance` is a distance: a number from zero
    /// up, short of infinity.
    pub fn new(face: Face, distance: Scalar, refractive_index: Scalar) -> (hit: Intersect)
        ensures
            hit == (Intersect { face: Some(face), distance, refractive_index }),
            hit.in_reach() <==> distance.is_distance(),
    {
        Intersect { face: Some(face), distance, refractive_index }
    }

    /// A miss.
    #[verifier::when_used_as_spec(spec_empty)]
    pub fn empty() -> (miss: Intersect)
        ensures
            miss == Intersect::empty(),
            !miss.is_intersecting(),
    {
        Intersect { face: None, distance: Scalar::Num(INFINITY), refractive_index: Scalar::Num(0) }
    }

    /// Whether the ray hits the box.
    #[verifier::when_used_as_spec(spec_is_intersecting)]
    pub fn is_intersecting(self) -> (hit: bool)
        ensures
            hit == self.is_intersecting(),
    {
        self.face.is_some()
    }

    /// Whether the box is hit between the ray's origin and `limit`.
    #[verifier::when_used_as_spec(spec_before)]
    pub fn before(self, limit: Scalar) -> (hit: bool)
        ensures
            hit == self.before(limit),
    {
        self.face.is_some() && self.distance.is_distance() && self.distance.lt(limit)
    }

    /// Whether the box bends the light that enters it.
    #[verifier::when_used_as_spec(spec_bends)]
    pub fn bends(self) -> (bent: bool)
        ensures
            bent == self.bends(),
    {
        self.refractive_index.gt(Scalar::Num(ONE))
    }
}

} // verus!
