use animation::glam_transform::Transform;
use glam::{Mat4, Quat, Vec3};

fn half_turn_about_z() -> Quat {
    Quat::from_xyzw(0.0, 0.0, 1.0, 0.0)
}

fn close(a: Vec3, b: Vec3) -> bool {
    (a - b).length() < 1.0e-5
}

#[test]
fn new_keeps_its_arguments() {
    let t = Transform::new(Vec3::new(1.0, 2.0, 3.0), half_turn_about_z(), Vec3::splat(2.0));
    assert_eq!(t.translation, Vec3::new(1.0, 2.0, 3.0));
    assert_eq!(t.rotation, half_turn_about_z());
    assert_eq!(t.scale, Vec3::splat(2.0));
}

#[test]
fn default_is_the_neutral_transform() {
    let t = Transform::default();
    assert_eq!(t.translation, Vec3::ZERO);
    assert_eq!(t.rotation, Quat::IDENTITY);
    assert_eq!(t.scale, Vec3::ONE);
    assert_eq!(t.translation.x.to_bits(), 0);
    assert_eq!(t.rotation.w.to_bits(), 0x3f80_0000);
    assert_eq!(t.scale.z.to_bits(), 0x3f80_0000);
}

#[test]
fn combine_scales_rotates_then_translates() {
    let parent = Transform::new(
        Vec3::new(1.0, 2.0, 3.0),
        half_turn_about_z(),
        Vec3::new(2.0, 3.0, 4.0),
    );
    let child = Transform::new(Vec3::new(1.0, 1.0, 1.0), Quat::IDENTITY, Vec3::new(0.5, 2.0, 1.0));
    let r = parent.combine(&child);
    // scale (2, 3, 4), half turn about z maps (x, y, z) to (-x, -y, z)
    assert_eq!(r.translation, Vec3::new(1.0 - 2.0, 2.0 - 3.0, 3.0 + 4.0));
    assert_eq!(r.rotation, half_turn_about_z());
    assert_eq!(r.scale, Vec3::new(1.0, 6.0, 4.0));
}

#[test]
fn combine_multiplies_rotations_in_order() {
    let about_x = Quat::from_xyzw(1.0, 0.0, 0.0, 0.0);
    let a = Transform::new(Vec3::ZERO, half_turn_about_z(), Vec3::ONE);
    let b = Transform::new(Vec3::ZERO, about_x, Vec3::ONE);
    assert_eq!(a.combine(&b).rotation, half_turn_about_z() * about_x);
    assert_eq!(b.combine(&a).rotation, about_x * half_turn_about_z());
    assert_ne!(a.combine(&b).rotation, b.combine(&a).rotation);
}

#[test]
fn combine_with_the_neutral_transform_changes_nothing() {
    let t = Transform::new(Vec3::new(1.0, 2.0, 3.0), half_turn_about_z(), Vec3::splat(2.0));
    assert_eq!(Transform::default().combine(&t), t);
    assert_eq!(t.combine(&Transform::default()), t);
}

#[test]
fn inverse_has_the_stated_components() {
    let t = Transform::new(Vec3::new(2.0, 4.0, 8.0), half_turn_about_z(), Vec3::new(2.0, 4.0, 8.0));
    let inv = t.inverse();
    assert_eq!(inv.rotation, Quat::from_xyzw(-0.0, -0.0, -1.0, 0.0));
    assert_eq!(inv.scale, Vec3::new(0.5, 0.25, 0.125));
    // (1/s) * (-t) = (-1, -1, -1); the inverse half turn maps it to (1, 1, -1)
    assert_eq!(inv.translation, Vec3::new(1.0, 1.0, -1.0));
}

#[test]
fn inverse_undoes_combine() {
    let t = Transform::new(
        Vec3::new(1.0, -2.0, 0.5),
        Quat::from_rotation_y(0.7),
        Vec3::splat(2.0),
    );
    let back = t.inverse().combine(&t);
    assert!(close(back.translation, Vec3::ZERO));
    assert!(close(back.scale, Vec3::ONE));
    assert!(back.rotation.dot(Quat::IDENTITY).abs() > 0.99999);
}

#[test]
fn inverse_of_a_zero_scale_does_not_fail() {
    let t = Transform::new(Vec3::ONE, Quat::IDENTITY, Vec3::ZERO);
    let inv = t.inverse();
    assert_eq!(inv.scale, Vec3::splat(f32::INFINITY));
}

#[test]
fn to_matrix_is_the_affine_matrix() {
    let t = Transform::new(Vec3::new(1.0, 2.0, 3.0), half_turn_about_z(), Vec3::new(2.0, 3.0, 4.0));
    let m = t.to_matrix();
    assert_eq!(m, Mat4::from_scale_rotation_translation(t.scale, t.rotation, t.translation));
    assert_eq!(m.transform_point3(Vec3::new(1.0, 1.0, 1.0)), Vec3::new(-1.0, -1.0, 7.0));
}

#[test]
fn from_matrix_reads_the_components_back() {
    let t = Transform::new(Vec3::new(1.0, 2.0, 3.0), Quat::from_rotation_x(0.5), Vec3::new(2.0, 3.0, 4.0));
    let back = Transform::from_matrix(t.to_matrix());
    assert!(close(back.translation, t.translation));
    assert!(close(back.scale, t.scale));
    assert!(back.rotation.dot(t.rotation).abs() > 0.99999);
    let id = Transform::from_matrix(Mat4::IDENTITY);
    assert_eq!(id.translation, Vec3::ZERO);
    assert_eq!(id.scale, Vec3::ONE);
    assert_eq!(id.rotation, Quat::IDENTITY);
}

#[test]
fn transforms_and_matrices_convert_into_each_other() {
    let t = Transform::new(Vec3::new(1.0, 2.0, 3.0), half_turn_about_z(), Vec3::new(2.0, 3.0, 4.0));
    let m: Mat4 = t.into();
    assert_eq!(m, t.to_matrix());
    assert_eq!(Mat4::from(t), t.to_matrix());
    let back: Transform = m.into();
    assert_eq!(back, Transform::from_matrix(m));
    assert!(close(Transform::from(m).translation, t.translation));
    assert!(close(Transform::from(m).scale, t.scale));
}

#[test]
fn mix_blends_the_parts_and_takes_the_rotation_the_short_way() {
    let a = Transform::new(Vec3::ZERO, Quat::from_xyzw(0.0, 0.0, 0.0, 1.0), Vec3::ONE);
    let b = Transform::new(
        Vec3::new(2.0, 4.0, -6.0),
        Quat::from_xyzw(0.0, 0.0, 0.0, -1.0),
        Vec3::splat(3.0),
    );
    let halfway_vec3 = |x: Vec3, y: Vec3| x.lerp(y, 0.5);
    let halfway_quat = |x: Quat, y: Quat| x.lerp(y, 0.5);
    let r = a.mix(&b, &halfway_vec3, &halfway_quat);
    assert_eq!(r.translation, Vec3::new(1.0, 2.0, -3.0));
    assert_eq!(r.scale, Vec3::splat(2.0));
    // the far rotation is the same rotation: the blend does not pass through zero
    assert_eq!(r.rotation, Quat::IDENTITY);
}

#[test]
fn mix_hands_the_steps_the_neighbour_of_the_other_rotation() {
    let a = Transform::new(Vec3::X, Quat::from_xyzw(0.0, 0.6, 0.0, 0.8), Vec3::ONE);
    let near = Transform::new(Vec3::Y, Quat::from_xyzw(0.1, 0.6, 0.2, 0.7), Vec3::splat(2.0));
    let far = Transform::new(Vec3::Y, Quat::from_xyzw(-0.1, -0.6, -0.2, -0.7), Vec3::splat(2.0));
    let second_vec3 = |_: Vec3, y: Vec3| y;
    let second_quat = |_: Quat, y: Quat| y;
    let r = a.mix(&near, &second_vec3, &second_quat);
    assert_eq!(r, near);
    let r = a.mix(&far, &second_vec3, &second_quat);
    assert_eq!(r.translation, far.translation);
    assert_eq!(r.scale, far.scale);
    assert_eq!(r.rotation, near.rotation);
    let first_vec3 = |x: Vec3, _: Vec3| x;
    let first_quat = |x: Quat, _: Quat| x;
    assert_eq!(a.mix(&far, &first_vec3, &first_quat), a);
}
