use diorama::scalar::INFINITY;
use diorama::{ray_intersect, Face, Intersect, PerFace, Scalar, Target};

fn read(x: f32) -> Scalar {
    Scalar::from_bits(x.to_bits())
}

fn reciprocal(d: f32) -> f32 {
    if d != 0.0 {
        1.0 / d
    } else {
        f32::INFINITY
    }
}

/// The ray parameter at which the ray crosses the plane of each face, in
/// the order x-min, x-max, y-min, y-max, z-min, z-max.
fn crossings(min: [f32; 3], max: [f32; 3], origin: [f32; 3], direction: [f32; 3]) -> [f32; 6] {
    let mut t = [0.0f32; 6];
    for axis in 0..3 {
        let inv = reciprocal(direction[axis]);
        t[2 * axis] = (min[axis] - origin[axis]) * inv;
        t[2 * axis + 1] = (max[axis] - origin[axis]) * inv;
    }
    t
}

fn target(t: [f32; 6], refractive_index: f32) -> Target {
    Target {
        crossings: PerFace {
            x_min: read(t[0]),
            x_max: read(t[1]),
            y_min: read(t[2]),
            y_max: read(t[3]),
            z_min: read(t[4]),
            z_max: read(t[5]),
        },
        refractive_index: read(refractive_index),
    }
}

fn place(face: Face) -> usize {
    match face {
        Face::XMin => 0,
        Face::XMax => 1,
        Face::YMin => 2,
        Face::YMax => 3,
        Face::ZMin => 4,
        Face::ZMax => 5,
    }
}

/// The slab method on single-precision numbers: the parameter at which the
/// line of the ray enters the box, or `None` where it passes the box by.
fn line_entry(t: [f32; 6]) -> Option<f32> {
    let (mut tmin, mut tmax) = (t[0], t[1]);
    if tmin > tmax {
        (tmin, tmax) = (tmax, tmin);
    }
    let (mut tymin, mut tymax) = (t[2], t[3]);
    if tymin > tymax {
        (tymin, tymax) = (tymax, tymin);
    }
    if tmin > tymax || tymin > tmax {
        return None;
    }
    if tymin > tmin {
        tmin = tymin;
    }
    if tymax < tmax {
        tmax = tymax;
    }
    let (mut tzmin, mut tzmax) = (t[4], t[5]);
    if tzmin > tzmax {
        (tzmin, tzmax) = (tzmax, tzmin);
    }
    if tmin > tzmax || tzmin > tmax {
        return None;
    }
    if tzmin > tmin {
        tmin = tzmin;
    }
    Some(tmin)
}

/// The distance of the hit: where the line enters the box, if that is ahead
/// of the ray's origin and short of infinity.
fn slab(t: [f32; 6]) -> Option<f32> {
    line_entry(t).filter(|&tmin| tmin >= 0.0 && tmin < f32::INFINITY)
}

const UNIT_MIN: [f32; 3] = [-0.5, -0.5, -0.5];
const UNIT_MAX: [f32; 3] = [0.5, 0.5, 0.5];

#[test]
fn a_ray_straight_at_a_face_enters_through_it() {
    let t = crossings(UNIT_MIN, UNIT_MAX, [0.0, 0.0, -10.0], [0.0, 0.0, 1.0]);
    let hit = ray_intersect(&target(t, 0.0));
    assert_eq!(hit, Intersect::new(Face::ZMin, read(9.5), read(0.0)));
    assert!(hit.is_intersecting());
}

#[test]
fn a_ray_along_each_axis_enters_through_the_face_that_looks_at_it() {
    let cases = [
        ([-10.0, 0.1, 0.2], [1.0, 0.0, 0.0], Face::XMin),
        ([10.0, 0.1, 0.2], [-1.0, 0.0, 0.0], Face::XMax),
        ([0.1, -10.0, 0.2], [0.0, 1.0, 0.0], Face::YMin),
        ([0.1, 10.0, 0.2], [0.0, -1.0, 0.0], Face::YMax),
        ([0.1, 0.2, -10.0], [0.0, 0.0, 1.0], Face::ZMin),
        ([0.1, 0.2, 10.0], [0.0, 0.0, -1.0], Face::ZMax),
    ];
    for (origin, direction, face) in cases {
        let hit = ray_intersect(&target(crossings(UNIT_MIN, UNIT_MAX, origin, direction), 0.0));
        assert_eq!(hit.face, Some(face));
        assert_eq!(hit.distance, read(9.5));
    }
}

#[test]
fn a_ray_beside_the_box_misses() {
    let t = crossings(UNIT_MIN, UNIT_MAX, [2.0, 0.0, -10.0], [0.0, 0.0, 1.0]);
    let hit = ray_intersect(&target(t, 1.5));
    assert_eq!(hit, Intersect::empty());
    assert!(!hit.is_intersecting());
    assert_eq!(hit.distance, Scalar::Num(INFINITY));
    assert_eq!(hit.refractive_index, read(0.0));
}

#[test]
fn a_slanted_ray_that_leaves_one_slab_before_it_enters_another_misses() {
    let t = crossings(UNIT_MIN, UNIT_MAX, [-3.0, 0.0, 0.0], [1.0, 1.0, 0.0]);
    assert_eq!(slab(t), None);
    assert_eq!(ray_intersect(&target(t, 0.0)).face, None);
}

#[test]
fn a_slanted_ray_enters_through_the_plane_it_crosses_last() {
    let t = crossings(UNIT_MIN, UNIT_MAX, [-2.0, -1.0, 0.0], [2.0, 1.0, 0.0]);
    let hit = ray_intersect(&target(t, 0.0));
    assert_eq!(hit.face, Some(Face::XMin));
    assert_eq!(hit.distance, read(0.75));
}

#[test]
fn a_ray_through_an_edge_enters_through_the_face_of_the_earlier_axis() {
    let t = crossings(UNIT_MIN, UNIT_MAX, [-1.5, -1.5, 0.0], [1.0, 1.0, 0.0]);
    assert_eq!(t[0], t[2]);
    let hit = ray_intersect(&target(t, 0.0));
    assert_eq!(hit.face, Some(Face::XMin));
    let t = crossings(UNIT_MIN, UNIT_MAX, [0.0, -1.5, -1.5], [0.0, 1.0, 1.0]);
    assert_eq!(t[2], t[4]);
    assert_eq!(ray_intersect(&target(t, 0.0)).face, Some(Face::YMin));
}

#[test]
fn a_box_behind_the_ray_is_missed() {
    let t = crossings(UNIT_MIN, UNIT_MAX, [0.0, 0.0, 10.0], [0.0, 0.0, 1.0]);
    assert_eq!(line_entry(t), Some(-10.5));
    let hit = ray_intersect(&target(t, 1.5));
    assert_eq!(hit, Intersect::empty());
    assert!(!hit.is_intersecting());
    assert_eq!(hit.distance, Scalar::Num(INFINITY));
}

#[test]
fn a_ray_from_inside_the_box_does_not_enter_it() {
    let t = crossings(UNIT_MIN, UNIT_MAX, [0.0, 0.0, 0.0], [0.0, 0.0, 1.0]);
    assert_eq!(line_entry(t), Some(-0.5));
    assert_eq!(ray_intersect(&target(t, 0.0)), Intersect::empty());
}

#[test]
fn a_ray_that_starts_on_a_face_hits_at_distance_zero() {
    let t = crossings(UNIT_MIN, UNIT_MAX, [0.0, 0.0, -0.5], [0.0, 0.0, 1.0]);
    let hit = ray_intersect(&target(t, 0.0));
    assert_eq!(hit, Intersect::new(Face::ZMin, read(0.0), read(0.0)));
    // Minus zero is zero.
    let t = crossings(UNIT_MIN, UNIT_MAX, [0.0, 0.0, 0.5], [0.0, 0.0, -1.0]);
    assert_eq!(t[5].to_bits(), (-0.0f32).to_bits());
    let hit = ray_intersect(&target(t, 0.0));
    assert_eq!(hit.face, Some(Face::ZMax));
    assert_eq!(hit.distance, read(0.0));
}

#[test]
fn a_hit_is_never_behind_the_origin_nor_infinitely_far() {
    let samples = [f32::NAN, f32::NEG_INFINITY, -1.0, -0.0, 0.0, 2.0, f32::INFINITY];
    for &a in &samples {
        for &b in &samples {
            for &c in &samples {
                for &d in &samples {
                    for &e in &samples {
                        for &f in &samples {
                            let t = [a, b, c, d, e, f];
                            let hit = ray_intersect(&target(t, 0.0));
                            match hit.face {
                                Some(face) => {
                                    let distance = t[place(face)];
                                    assert!(distance >= 0.0 && distance < f32::INFINITY);
                                    assert_eq!(hit.distance, read(distance));
                                },
                                None => assert_eq!(hit, Intersect::empty()),
                            }
                        }
                    }
                }
            }
        }
    }
}

#[test]
fn the_hit_carries_the_refractive_index_of_the_box() {
    let t = crossings(UNIT_MIN, UNIT_MAX, [0.0, 0.0, -10.0], [0.0, 0.0, 1.0]);
    assert_eq!(ray_intersect(&target(t, 1.5)).refractive_index, read(1.5));
    assert!(ray_intersect(&target(t, 1.5)).bends());
    assert!(!ray_intersect(&target(t, 1.0)).bends());
    assert!(!ray_intersect(&target(t, 0.0)).bends());
}

#[test]
fn ray_intersect_agrees_with_the_slab_method_on_a_grid_of_rays() {
    let places = [-10.0f32, -1.5, -0.5, -0.25, 0.0, 0.25, 0.5, 1.5, 10.0];
    let slopes = [-1.0f32, -0.3, 0.0, 0.3, 1.0];
    let mut hits = 0;
    let mut misses = 0;
    for &ox in &places {
        for &oy in &places {
            for &oz in &places {
                for &dx in &slopes {
                    for &dy in &slopes {
                        for &dz in &slopes {
                            let t = crossings(UNIT_MIN, UNIT_MAX, [ox, oy, oz], [dx, dy, dz]);
                            let hit = ray_intersect(&target(t, 0.0));
                            match (slab(t), hit.face) {
                                (None, None) => misses += 1,
                                (Some(distance), Some(face)) => {
                                    assert_eq!(t[place(face)].to_bits(), distance.to_bits());
                                    assert_eq!(hit.distance, read(distance));
                                    hits += 1;
                                },
                                (expected, found) => {
                                    panic!("{:?} to {:?}: {:?} but {:?}", [ox, oy, oz], [dx, dy, dz], expected, found)
                                },
                            }
                        }
                    }
                }
            }
        }
    }
    assert!(hits > 500);
    assert!(misses > 1000);
}

#[test]
fn ray_intersect_agrees_with_the_slab_method_where_a_crossing_is_no_number() {
    // A ray that runs in the plane of a face: zero times infinity.
    let t = crossings(UNIT_MIN, UNIT_MAX, [-0.5, 0.0, -10.0], [0.0, 0.0, 1.0]);
    assert!(t[0].is_nan());
    let hit = ray_intersect(&target(t, 0.0));
    assert_eq!(slab(t).map(f32::to_bits), hit.face.map(|face| t[place(face)].to_bits()));
    let samples = [f32::NAN, f32::NEG_INFINITY, -1.0, 0.0, 2.0, f32::INFINITY];
    for &a in &samples {
        for &b in &samples {
            for &c in &samples {
                for &d in &samples {
                    for &e in &samples {
                        for &f in &samples {
                            let t = [a, b, c, d, e, f];
                            let hit = ray_intersect(&target(t, 0.0));
                            assert_eq!(
                                slab(t).map(f32::to_bits),
                                hit.face.map(|face| t[place(face)].to_bits())
                            );
                        }
                    }
                }
            }
        }
    }
}
