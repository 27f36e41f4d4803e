use animation::resources::get_path;
use animation::track_helpers::{AdjustHermiteResult, Neighborhood};
use animation::vector4::Vector4;
use glam::{Quat, Vec3};
use std::path::Path;

#[test]
fn a_vector_is_taken_as_the_curve_gives_it() {
    let v = Vec3::new(3.0, -4.0, 12.0);
    assert_eq!(v.adjust_hermite_result(), v);
}

#[test]
fn a_rotation_is_scaled_back_to_unit_length() {
    let q = Quat::from_xyzw(0.0, 3.0, 0.0, 4.0);
    assert_eq!(q.adjust_hermite_result(), Quat::from_xyzw(0.0, 0.6, 0.0, 0.8));
    let q = Quat::from_xyzw(1.0, 1.0, 1.0, 1.0);
    assert_eq!(q.adjust_hermite_result(), Quat::from_xyzw(0.5, 0.5, 0.5, 0.5));
}

#[test]
fn a_vector_of_four_is_three_and_one() {
    let v = Vector4::new((1u8, 2u8, 3u8), 4u8);
    assert_eq!(v, Vector4 { x: 1, y: 2, z: 3, w: 4 });
    assert_eq!(v.truncate(), (1, 2, 3));
    let p = Vector4::new((0.5f32, -1.0, 2.0), 1.0);
    assert_eq!(p.w, 1.0);
    assert_eq!(p.truncate(), (0.5, -1.0, 2.0));
}

#[test]
fn resources_live_under_res() {
    let path = get_path("out", "cube.obj");
    assert_eq!(path, Path::new("out").join("res").join("cube.obj"));
    let mut parts = path.iter();
    assert_eq!(parts.next().unwrap(), "out");
    assert_eq!(parts.next().unwrap(), "res");
    assert_eq!(parts.next().unwrap(), "cube.obj");
    assert!(parts.next().is_none());
}

#[test]
fn a_rooted_name_replaces_the_directory() {
    let root = std::path::MAIN_SEPARATOR.to_string();
    let rooted = format!("{}models{}cube.obj", root, root);
    assert_eq!(get_path("out", &rooted), Path::new(&rooted));
}

#[test]
fn a_vector_has_no_other_side() {
    let a = Vec3::new(1.0, 0.0, 0.0);
    let mut b = Vec3::new(-1.0, -2.0, -3.0);
    a.neighborhood(&mut b);
    assert_eq!(b, Vec3::new(-1.0, -2.0, -3.0));
}

#[test]
fn a_rotation_on_the_far_side_is_negated() {
    let a = Quat::from_xyzw(0.0, 0.6, 0.0, 0.8);
    let mut far = Quat::from_xyzw(0.1, -0.6, 0.2, -0.7);
    a.neighborhood(&mut far);
    assert_eq!(far, Quat::from_xyzw(-0.1, 0.6, -0.2, 0.7));
    assert!(a.dot(far) > 0.0);
}

#[test]
fn a_rotation_on_the_near_side_stays() {
    let a = Quat::from_xyzw(0.0, 0.6, 0.0, 0.8);
    let mut near = Quat::from_xyzw(0.1, 0.6, 0.2, 0.7);
    a.neighborhood(&mut near);
    assert_eq!(near, Quat::from_xyzw(0.1, 0.6, 0.2, 0.7));
    // at right angles the dot product is zero, which is not below zero
    let mut square = Quat::from_xyzw(1.0, 0.0, 0.0, 0.0);
    a.neighborhood(&mut square);
    assert_eq!(square, Quat::from_xyzw(1.0, 0.0, 0.0, 0.0));
    assert_eq!(square.x.to_bits(), 1.0f32.to_bits());
}
