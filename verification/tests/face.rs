use diorama::{uv_axes, Axis, Face, PerFace, Scalar};

fn read(x: f32) -> Scalar {
    Scalar::from_bits(x.to_bits())
}

fn offsets(x_min: f32, x_max: f32, y_min: f32, y_max: f32, z_min: f32, z_max: f32) -> PerFace {
    PerFace {
        x_min: read(x_min),
        x_max: read(x_max),
        y_min: read(y_min),
        y_max: read(y_max),
        z_min: read(z_min),
        z_max: read(z_max),
    }
}

#[test]
fn a_point_on_one_face_gets_that_face() {
    assert_eq!(Face::of(&offsets(0.0, 1.0, 0.5, 0.5, 0.5, 0.5)), Face::XMin);
    assert_eq!(Face::of(&offsets(1.0, 0.0, 0.5, 0.5, 0.5, 0.5)), Face::XMax);
    assert_eq!(Face::of(&offsets(0.5, 0.5, 0.0, 1.0, 0.5, 0.5)), Face::YMin);
    assert_eq!(Face::of(&offsets(0.5, 0.5, 1.0, 0.0, 0.5, 0.5)), Face::YMax);
    assert_eq!(Face::of(&offsets(0.5, 0.5, 0.5, 0.5, 0.0, 1.0)), Face::ZMin);
    assert_eq!(Face::of(&offsets(0.5, 0.5, 0.5, 0.5, 1.0, 0.0)), Face::ZMax);
}

#[test]
fn a_point_on_an_edge_or_corner_gets_the_earliest_face() {
    assert_eq!(Face::of(&offsets(0.0, 1.0, 0.0, 1.0, 0.0, 1.0)), Face::XMin);
    assert_eq!(Face::of(&offsets(1.0, 0.0, 0.0, 1.0, 0.0, 1.0)), Face::XMax);
    assert_eq!(Face::of(&offsets(0.5, 0.5, 0.0, 1.0, 0.0, 1.0)), Face::YMin);
    assert_eq!(Face::of(&offsets(0.5, 0.5, 1.0, 0.0, 1.0, 0.0)), Face::YMax);
    assert_eq!(Face::of(&offsets(0.0, 0.0, 0.0, 0.0, 0.0, 0.0)), Face::XMin);
}

#[test]
fn a_point_on_no_face_gets_the_last_face() {
    assert_eq!(Face::of(&offsets(0.5, 0.5, 0.5, 0.5, 0.5, 0.5)), Face::ZMax);
    assert_eq!(Face::of(&offsets(3.0, 2.0, 3.0, 2.0, 3.0, 2.0)), Face::ZMax);
}

#[test]
fn the_tolerance_is_a_thousandth_and_is_not_itself_near() {
    assert_eq!(Face::of(&offsets(0.000_999, 1.0, 1.0, 1.0, 1.0, 1.0)), Face::XMin);
    assert_eq!(Face::of(&offsets(0.001, 1.0, 1.0, 1.0, 1.0, 1.0)), Face::ZMax);
    assert_eq!(Face::of(&offsets(0.001_001, 1.0, 1.0, 1.0, 1.0, 1.0)), Face::ZMax);
    let just_below = f32::from_bits(0.001f32.to_bits() - 1);
    assert_eq!(Face::of(&offsets(1.0, 1.0, 1.0, just_below, 1.0, 1.0)), Face::YMax);
}

#[test]
fn an_offset_that_is_no_number_is_not_near() {
    let nan = f32::NAN;
    assert_eq!(Face::of(&offsets(nan, nan, nan, nan, nan, nan)), Face::ZMax);
    assert_eq!(Face::of(&offsets(nan, nan, 0.0, nan, nan, nan)), Face::YMin);
}

#[test]
fn normals_point_out_of_the_box() {
    assert_eq!(Face::XMin.normal(), (-1, 0, 0));
    assert_eq!(Face::XMax.normal(), (1, 0, 0));
    assert_eq!(Face::YMin.normal(), (0, -1, 0));
    assert_eq!(Face::YMax.normal(), (0, 1, 0));
    assert_eq!(Face::ZMin.normal(), (0, 0, -1));
    assert_eq!(Face::ZMax.normal(), (0, 0, 1));
}

#[test]
fn per_face_gives_each_face_its_number() {
    let values = offsets(1.0, 2.0, 3.0, 4.0, 5.0, 6.0);
    assert_eq!(values.at(Face::XMin), read(1.0));
    assert_eq!(values.at(Face::XMax), read(2.0));
    assert_eq!(values.at(Face::YMin), read(3.0));
    assert_eq!(values.at(Face::YMax), read(4.0));
    assert_eq!(values.at(Face::ZMin), read(5.0));
    assert_eq!(values.at(Face::ZMax), read(6.0));
}

#[test]
fn uv_axes_follow_the_first_component_that_is_not_zero() {
    assert_eq!(uv_axes(true, false), (Axis::Z, Axis::Y));
    assert_eq!(uv_axes(true, true), (Axis::Z, Axis::Y));
    assert_eq!(uv_axes(false, true), (Axis::X, Axis::Z));
    assert_eq!(uv_axes(false, false), (Axis::X, Axis::Y));
}

#[test]
fn uv_axes_of_a_face_lie_in_the_face() {
    let faces = [
        (Face::XMin, Axis::X),
        (Face::XMax, Axis::X),
        (Face::YMin, Axis::Y),
        (Face::YMax, Axis::Y),
        (Face::ZMin, Axis::Z),
        (Face::ZMax, Axis::Z),
    ];
    for (face, across) in faces {
        let (x, y, _) = face.normal();
        let (u, v) = uv_axes(x != 0, y != 0);
        assert_ne!(u, v);
        assert_ne!(u, across);
        assert_ne!(v, across);
    }
}

/// The face by the chain of tests on single-precision numbers.
fn first_near(offsets: [f32; 6]) -> Face {
    if offsets[0] < 1e-3 {
        Face::XMin
    } else if offsets[1] < 1e-3 {
        Face::XMax
    } else if offsets[2] < 1e-3 {
        Face::YMin
    } else if offsets[3] < 1e-3 {
        Face::YMax
    } else if offsets[4] < 1e-3 {
        Face::ZMin
    } else {
        Face::ZMax
    }
}

#[test]
fn face_of_agrees_with_the_chain_of_tests_on_all_mixes_of_offsets() {
    let just_below = f32::from_bits(1e-3f32.to_bits() - 1);
    let just_above = f32::from_bits(1e-3f32.to_bits() + 1);
    let samples = [0.0f32, just_below, 1e-3, just_above, 0.5, f32::NAN, -0.0, f32::INFINITY];
    let mut seen = [0usize; 6];
    for &a in &samples {
        for &b in &samples {
            for &c in &samples {
                for &d in &samples {
                    for &e in &samples {
                        let values = [a, b, c, d, e, 0.25];
                        let face = Face::of(&offsets(a, b, c, d, e, 0.25));
                        assert_eq!(face, first_near(values));
                        seen[face as usize] += 1;
                    }
                }
            }
        }
    }
    assert!(seen.iter().all(|&count| count > 0));
}
