use vstd::prelude::*;
use vstd::arithmetic::power2::{lemma2_to64, lemma_pow2_adds, lemma_pow2_unfold, pow2};
use crate::scalar::{value, Scalar};

verus! {

/// The key of the distance below which a point counts as lying on a plane:
/// the single-precision number nearest to a thousandth.
pub const TOLERANCE: i32 = 0x3a83_126f;

/// One of the three axes of space.
#[derive(Clone, Copy, Debug, PartialEq, Eq, Structural)]
pub enum Axis {
    X,
    Y,
    Z,
}

/// One of the six faces of an axis-aligned box, named by the axis it is
/// perpendicular to and the corner it belongs to.
#[derive(Clone, Copy, Debug, PartialEq, Eq, Structural)]
pub enum Face {
    XMin,
    XMax,
    YMin,
    YMax,
    ZMin,
    ZMax,
}

/// A number for each face of a box.
#[derive(Clone, Copy, Debug, PartialEq, Eq, Structural)]
pub struct PerFace {
    pub x_min: Scalar,
    pub x_max: Scalar,
    pub y_min: Scalar,
    pub y_max: Scalar,
    pub z_min: Scalar,
    pub z_max: Scalar,
}

impl Axis {
    /// The place of the axis in the order x, y, z.
    pub open spec fn rank(self) -> int {
        match self {
            Axis::X => 0,
            Axis::Y => 1,
            Axis::Z => 2,
        }
    }

    /// The face across this axis at the box's least corner.
    pub open spec fn min_face(self) -> Face {
        match self {
            Axis::X => Face::XMin,
            Axis::Y => Face::YMin,
            Axis::Z => Face::ZMin,
        }
    }

    /// The face across this axis at the box's greatest corner.
    pub open spec fn max_face(self) -> Face {
        match self {
            Axis::X => Face::XMax,
            Axis::Y => Face::YMax,
            Axis::Z => Face::ZMax,
        }
    }
}

impl PerFace {
    /// The number of `face`.
    pub open spec fn spec_at(self, face: Face) -> Scalar {
        match face {
            Face::XMin => self.x_min,
            Face::XMax => self.x_max,
            Face::YMin => self.y_min,
            Face::YMax => self.y_max,
            Face::ZMin => self.z_min,
            Face::ZMax => self.z_max,
        }
    }

    /// The number of `face`.
    #[verifier::when_used_as_spec(spec_at)]
    pub fn at(self, face: Face) -> (s: Scalar)
        ensures
            s == self.at(face),
    {
        match face {
            Face::XMin => self.x_min,
            Face::XMax => self.x_max,
            Face::YMin => self.y_min,
            Face::YMax => self.y_max,
            Face::ZMin => self.z_min,
            Face::ZMax => self.z_max,
        }
    }

    /// Whether a point that lies this far from the plane of each face
    /// counts as lying on `face`: it is nearer than the tolerance. The last
    /// face takes whatever no other face took.
    pub open spec fn touches(self, face: Face) -> bool {
        face == Face::ZMax || self.at(face).lt(Scalar::Num(TOLERANCE))
    }
}

impl Face {
    /// The place of the face in the order in which faces are tried.
    pub open spec fn rank(self) -> int {
        match self {
            Face::XMin => 0,
            Face::XMax => 1,
            Face::YMin => 2,
            Face::YMax => 3,
            Face::ZMin => 4,
            Face::ZMax => 5,
        }
    }

    /// The axis that the face is perpendicular to.
    pub open spec fn axis(self) -> Axis {
        match self {
            Face::XMin | Face::XMax => Axis::X,
            Face::YMin | Face::YMax => Axis::Y,
            Face::ZMin | Face::ZMax => Axis::Z,
        }
    }

    /// Whether the face belongs to the box's greatest corner.
    pub open spec fn is_max(self) -> bool {
        self == self.axis().max_face()
    }

    /// The unit vector that points out of the box through the face.
    pub open spec fn spec_normal(self) -> (int, int, int) {
        let sign: int = if self.is_max() { 1 } else { -1 };
        match self.axis() {
            Axis::X => (sign, 0, 0),
            Axis::Y => (0, sign, 0),
            Axis::Z => (0, 0, sign),
        }
    }

    /// The face that a surface point is taken to lie on, from its distance
    /// to the plane of each face: the first face, in the order of `rank`,
    /// that it touches. A point on an edge or a corner touches several
    /// faces and gets the earliest.
    pub fn of(offsets: &PerFace) -> (face: Face)
        ensures
            offsets.touches(face),
            forall|earlier: Face| earlier.rank() < face.rank() ==> !offsets.touches(earlier),
    {
        let tolerance = Scalar::Num(TOLERANCE);
        if offsets.x_min.lt(tolerance) {
            Face::XMin
        } else if offsets.x_max.lt(tolerance) {
            Face::XMax
        } else if offsets.y_min.lt(tolerance) {
            Face::YMin
        } else if offsets.y_max.lt(tolerance) {
            Face::YMax
        } else if offsets.z_min.lt(tolerance) {
            Face::ZMin
        } else {
            Face::ZMax
        }
    }

    /// The outward normal of the face.
    pub fn normal(self) -> (n: (i8, i8, i8))
        ensures
            (n.0 as int, n.1 as int, n.2 as int) == self.spec_normal(),
    {
        match self {
            Face::XMin => (-1, 0, 0),
            Face::XMax => (1, 0, 0),
            Face::YMin => (0, -1, 0),
            Face::YMax => (0, 1, 0),
            Face::ZMin => (0, 0, -1),
            Face::ZMax => (0, 0, 1),
        }
    }
}

/// The axes of `u` and `v` for a normal whose x and y components are zero
/// or not as given.
pub open spec fn spec_uv_axes(x_nonzero: bool, y_nonzero: bool) -> (Axis, Axis) {
    if x_nonzero {
        (Axis::Z, Axis::Y)
    } else if y_nonzero {
        (Axis::X, Axis::Z)
    } else {
        (Axis::X, Axis::Y)
    }
}

/// The two axes along which a surface is unwrapped into texture
/// coordinates, `u` first. They are chosen by the first component of the
/// surface normal that is not zero, whatever the other components are.
#[verifier::when_used_as_spec(spec_uv_axes)]
pub fn uv_axes(x_nonzero: bool, y_nonzero: bool) -> (axes: (Axis, Axis))
    ensures
        axes == uv_axes(x_nonzero, y_nonzero),
{
    if x_nonzero {
        (Axis::Z, Axis::Y)
    } else if y_nonzero {
        (Axis::X, Axis::Z)
    } else {
        (Axis::X, Axis::Y)
    }
}

/// Exactly one face is the first that a point touches.
pub proof fn lemma_face_is_determined(offsets: PerFace, a: Face, b: Face)
    requires
        offsets.touches(a),
        forall|earlier: Face| earlier.rank() < a.rank() ==> !offsets.touches(earlier),
        offsets.touches(b),
        forall|earlier: Face| earlier.rank() < b.rank() ==> !offsets.touches(earlier),
    ensures
        a == b,
{
}

/// The normal of a face has length one and lies along the face's axis,
/// towards the greater coordinates on a face of the greatest corner and
/// towards the smaller ones on a face of the least corner.
pub proof fn lemma_normal_is_outward_unit(face: Face)
    ensures
        ({
            let (x, y, z) = face.spec_normal();
            &&& x * x + y * y + z * z == 1
            &&& (x != 0 <==> face.axis() == Axis::X)
            &&& (y != 0 <==> face.axis() == Axis::Y)
            &&& (z != 0 <==> face.axis() == Axis::Z)
            &&& (x + y + z == 1 <==> face.is_max())
        }),
{
}

/// On a face of a box, texture coordinates run along the two axes that lie
/// in the face.
pub proof fn lemma_uv_axes_lie_in_face(face: Face)
    ensures
        ({
            let (x, y, z) = face.spec_normal();
            let (u, v) = uv_axes(x != 0, y != 0);
            u != v && u != face.axis() && v != face.axis()
        }),
{
}

/// No single-precision number is nearer to a thousandth than the
/// tolerance: a thousand tolerances miss one by 408 parts in 2^33, less
/// than the 500 that half a step between neighbouring numbers comes to.
pub proof fn lemma_tolerance_is_a_thousandth()
    ensures
        Scalar::from_bits(0x3a83_126f) == Scalar::Num(TOLERANCE),
        value(0x3a83_126f) == 8589935 * pow2(116),
        1000 * value(0x3a83_126f) - pow2(149) == 408 * pow2(116),
{
    lemma2_to64();
    lemma_pow2_adds(32, 117);
    lemma_pow2_unfold(117);
    assert(0x3a83_126fint / 0x80_0000 == 117 && 0x3a83_126fint % 0x80_0000 == 201327);
}

} // verus!
