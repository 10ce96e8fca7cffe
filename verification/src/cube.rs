use vstd::prelude::*;
use crate::face::{lemma_face_is_determined, Axis, Face, PerFace};
use crate::intersect::{Intersect, Target};
use crate::scalar::{Scalar, INFINITY};

verus! {

/// Of the two faces across `axis`, the one whose plane the ray crosses
/// first: the face of the least corner, unless the other comes sooner.
pub open spec fn low(crossings: PerFace, axis: Axis) -> Face {
    if crossings.at(axis.min_face()).gt(crossings.at(axis.max_face())) {
        axis.max_face()
    } else {
        axis.min_face()
    }
}

/// Of the two faces across `axis`, the one whose plane the ray crosses
/// last.
pub open spec fn high(crossings: PerFace, axis: Axis) -> Face {
    if crossings.at(axis.min_face()).gt(crossings.at(axis.max_face())) {
        axis.min_face()
    } else {
        axis.max_face()
    }
}

/// Of two faces, the one whose plane is crossed later; the first on a tie.
pub open spec fn later(crossings: PerFace, a: Face, b: Face) -> Face {
    if crossings.at(b).gt(crossings.at(a)) {
        b
    } else {
        a
    }
}

/// Of two faces, the one whose plane is crossed sooner; the first on a tie.
pub open spec fn sooner(crossings: PerFace, a: Face, b: Face) -> Face {
    if crossings.at(b).lt(crossings.at(a)) {
        b
    } else {
        a
    }
}

/// The face through whose plane the line of a ray enters a box, from the
/// parameter at which it crosses the plane of each face; `None` where it
/// passes the box by. Between each pair of opposite planes lies a slab; the
/// line is in the box while it is in all three slabs. The slabs of x and y
/// are met first, then that of z. The entry may lie behind the ray's
/// origin, at a parameter below zero.
pub open spec fn slab_entry(crossings: PerFace) -> Option<Face> {
    let c = crossings;
    if c.at(low(c, Axis::X)).gt(c.at(high(c, Axis::Y))) || c.at(low(c, Axis::Y)).gt(
        c.at(high(c, Axis::X)),
    ) {
        None
    } else {
        let enter = later(c, low(c, Axis::X), low(c, Axis::Y));
        let leave = sooner(c, high(c, Axis::X), high(c, Axis::Y));
        if c.at(enter).gt(c.at(high(c, Axis::Z))) || c.at(low(c, Axis::Z)).gt(c.at(leave)) {
            None
        } else {
            Some(later(c, enter, low(c, Axis::Z)))
        }
    }
}

/// The face through which a ray enters a box ahead of its origin: where the
/// line of the ray enters the box, if that is at a distance from zero up,
/// short of infinity. A ray that starts inside a box, or beyond it, does
/// not enter it.
pub open spec fn entry_of(crossings: PerFace) -> Option<Face> {
    match slab_entry(crossings) {
        Some(face) => if crossings.at(face).is_distance() {
            Some(face)
        } else {
            None
        },
        None => None,
    }
}

/// What testing the ray against the box gives: a hit at the crossing of the
/// entry face, or a miss.
pub open spec fn hit_of(target: Target) -> Intersect {
    match entry_of(target.crossings) {
        Some(face) => Intersect {
            face: Some(face),
            distance: target.crossings.at(face),
            refractive_index: target.refractive_index,
        },
        None => Intersect::empty(),
    }
}

/// The two faces in the order in which the ray crosses their planes.
fn ordered(crossings: &PerFace, axis: Axis) -> (pair: (Face, Face))
    ensures
        pair == (low(*crossings, axis), high(*crossings, axis)),
{
    let (min_face, max_face) = match axis {
        Axis::X => (Face::XMin, Face::XMax),
        Axis::Y => (Face::YMin, Face::YMax),
        Axis::Z => (Face::ZMin, Face::ZMax),
    };
    if crossings.at(min_face).gt(crossings.at(max_face)) {
        (max_face, min_face)
    } else {
        (min_face, max_face)
    }
}

/// Finds the face through which the line of the ray enters the box, if it
/// does.
fn slab(crossings: &PerFace) -> (entry: Option<Face>)
    ensures
        entry == slab_entry(*crossings),
{
    let (x_low, x_high) = ordered(crossings, Axis::X);
    let (y_low, y_high) = ordered(crossings, Axis::Y);
    if crossings.at(x_low).gt(crossings.at(y_high)) || crossings.at(y_low).gt(
        crossings.at(x_high),
    ) {
        return None;
    }
    let mut enter = x_low;
    let mut leave = x_high;
    if crossings.at(y_low).gt(crossings.at(enter)) {
        enter = y_low;
    }
    if crossings.at(y_high).lt(crossings.at(leave)) {
        leave = y_high;
    }
    let (z_low, z_high) = ordered(crossings, Axis::Z);
    if crossings.at(enter).gt(crossings.at(z_high)) || crossings.at(z_low).gt(
        crossings.at(leave),
    ) {
        return None;
    }
    if crossings.at(z_low).gt(crossings.at(enter)) {
        enter = z_low;
    }
    Some(enter)
}

/// Tests a ray against a box. A hit is where the ray enters the box, ahead
/// of its origin: at a distance from zero up, short of infinity. All else
/// is a miss, with its distance of infinity.
pub fn ray_intersect(target: &Target) -> (hit: Intersect)
    ensures
        hit == hit_of(*target),
        hit.is_intersecting() ==> hit.distance.is_distance(),
        !hit.is_intersecting() ==> hit == Intersect::empty(),
{
    match slab(&target.crossings) {
        Some(face) => {
            let distance = target.crossings.at(face);
            if distance.is_distance() {
                Intersect::new(face, distance, target.refractive_index)
            } else {
                Intersect::empty()
            }
        },
        None => Intersect::empty(),
    }
}

/// Where every crossing is a number, the line of the ray meets the box
/// exactly when the three slabs have a parameter in common: no slab is
/// entered after another is left. It enters at the last of the three
/// entries, which lies in every slab, and among equal entries that of the
/// earlier axis is returned.
pub proof fn lemma_entry_lies_in_every_slab(crossings: PerFace)
    requires
        forall|face: Face| crossings.at(face) is Num,
    ensures
        slab_entry(crossings) is Some <==> forall|a: Axis, b: Axis|
            crossings.at(#[trigger] low(crossings, a)).key() <= crossings.at(
                #[trigger] high(crossings, b),
            ).key(),
        slab_entry(crossings) matches Some(entry) ==> {
            &&& entry == low(crossings, entry.axis())
            &&& forall|a: Axis|
                crossings.at(#[trigger] low(crossings, a)).key() <= crossings.at(entry).key()
                    <= crossings.at(high(crossings, a)).key()
            &&& forall|a: Axis|
                a.rank() < entry.axis().rank() ==> crossings.at(#[trigger] low(crossings, a)).key()
                    < crossings.at(entry).key()
        },
{
}

/// A hit lies ahead of the ray's origin: its distance is a number from
/// zero up, short of infinity, and it is the crossing of the face through
/// which the line of the ray enters the box. All else is the miss. So a box
/// behind the origin is not hit, nor a box that the origin lies in.
pub proof fn lemma_hit_lies_ahead(target: Target)
    ensures
        hit_of(target).is_intersecting() <==> (slab_entry(target.crossings) matches Some(face)
            && target.crossings.at(face).is_distance()),
        hit_of(target).is_intersecting() ==> {
            &&& hit_of(target).distance is Num
            &&& 0 <= hit_of(target).distance.key() < INFINITY
            &&& hit_of(target).face == slab_entry(target.crossings)
            &&& hit_of(target).distance == target.crossings.at(hit_of(target).face.unwrap())
            &&& hit_of(target).refractive_index == target.refractive_index
        },
        !hit_of(target).is_intersecting() ==> hit_of(target) == Intersect::empty(),
{
}

/// A box that the line of the ray enters behind the ray's origin is
/// missed, and stands before no light.
pub proof fn lemma_box_behind_is_missed(target: Target, light: Scalar)
    requires
        slab_entry(target.crossings) matches Some(face) ==> target.crossings.at(face).lt(
            Scalar::Num(0),
        ),
    ensures
        hit_of(target) == Intersect::empty(),
        !hit_of(target).before(light),
{
}

/// Where every crossing is a number, a ray hits a box exactly when the
/// three slabs have a parameter in common and the last of the three
/// entries lies at a distance from zero up, short of infinity.
pub proof fn lemma_hit_when_slabs_overlap_ahead(target: Target, last: Face)
    requires
        forall|face: Face| target.crossings.at(face) is Num,
        exists|a: Axis| last == low(target.crossings, a),
        forall|a: Axis|
            target.crossings.at(#[trigger] low(target.crossings, a)).key()
                <= target.crossings.at(last).key(),
    ensures
        hit_of(target).is_intersecting() <==> {
            &&& forall|a: Axis|
                target.crossings.at(last).key() <= target.crossings.at(
                    #[trigger] high(target.crossings, a),
                ).key()
            &&& 0 <= target.crossings.at(last).key() < INFINITY
        },
        hit_of(target).is_intersecting() ==> hit_of(target).distance == target.crossings.at(last),
{
    lemma_entry_lies_in_every_slab(target.crossings);
    let c = target.crossings;
    if slab_entry(c) is None && forall|a: Axis|
        c.at(last).key() <= c.at(#[trigger] high(c, a)).key() {
        // No slab is left before the last one is entered: the slabs overlap.
        assert forall|a: Axis, b: Axis|
            c.at(#[trigger] low(c, a)).key() <= c.at(#[trigger] high(c, b)).key() by {
            assert(c.at(low(c, a)).key() <= c.at(last).key());
        }
    }
}

/// A ray that runs along one axis towards a box, between the planes of the
/// other two pairs of faces, enters the box through the face that looks
/// towards it: with the slabs of the other axes open from minus to plus
/// infinity, the entry is the face of `axis` that is crossed first, where
/// that lies ahead of the ray's origin.
pub proof fn lemma_ray_along_axis_enters_facing_face(crossings: PerFace, axis: Axis)
    requires
        forall|face: Face| crossings.at(face) is Num,
        forall|other: Axis|
            other != axis ==> crossings.at(#[trigger] other.min_face()).key() == -INFINITY
                && crossings.at(other.max_face()).key() == INFINITY,
        0 <= crossings.at(axis.min_face()).key() < INFINITY,
        0 <= crossings.at(axis.max_face()).key() < INFINITY,
    ensures
        entry_of(crossings) == Some(low(crossings, axis)),
{
}

/// A ray that runs along one axis towards a box gets the normal of the
/// face that looks towards it, where it enters the box at a point that
/// touches that face and none of the faces tried before it: the unit vector
/// along the axis that points out of the box.
pub proof fn lemma_head_on_ray_gets_outward_normal(
    crossings: PerFace,
    offsets: PerFace,
    axis: Axis,
    found: Face,
)
    requires
        forall|face: Face| crossings.at(face) is Num,
        forall|other: Axis|
            other != axis ==> crossings.at(#[trigger] other.min_face()).key() == -INFINITY
                && crossings.at(other.max_face()).key() == INFINITY,
        0 <= crossings.at(axis.min_face()).key() < INFINITY,
        0 <= crossings.at(axis.max_face()).key() < INFINITY,
        offsets.touches(low(crossings, axis)),
        forall|earlier: Face|
            earlier.rank() < low(crossings, axis).rank() ==> !offsets.touches(earlier),
        offsets.touches(found),
        forall|earlier: Face| earlier.rank() < found.rank() ==> !offsets.touches(earlier),
    ensures
        entry_of(crossings) == Some(found),
        found.axis() == axis,
        found.spec_normal() == match axis {
            Axis::X => (if found.is_max() { 1int } else { -1int }, 0int, 0int),
            Axis::Y => (0int, if found.is_max() { 1int } else { -1int }, 0int),
            Axis::Z => (0int, 0int, if found.is_max() { 1int } else { -1int }),
        },
{
    lemma_ray_along_axis_enters_facing_face(crossings, axis);
    lemma_face_is_determined(offsets, found, low(crossings, axis));
}

} // verus!
