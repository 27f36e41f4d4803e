use animation::glam_transform::Transform;
use animation::pose::Pose;
use animation::skeleton::Skeleton;
use glam::{Mat4, Quat, Vec3};

fn bone(x: f32, y: f32, turn: f32, scale: f32) -> Transform {
    Transform::new(Vec3::new(x, y, 0.5), Quat::from_rotation_x(turn), Vec3::splat(scale))
}

fn bind() -> Pose {
    let mut pose = Pose::new();
    pose.add_local_transform(bone(1.0, 0.0, 0.25, 2.0));
    pose.add_local_transform(bone(0.0, 1.0, -0.5, 1.0));
    pose.add_local_transform(bone(0.5, 0.5, 1.0, 0.5));
    pose.add_parent(Some(2));
    pose.add_parent(Some(0));
    pose.add_parent(None);
    pose
}

fn rest() -> Pose {
    let mut pose = bind();
    pose.set_local_transform(1, bone(3.0, 3.0, 0.0, 1.0));
    pose
}

fn skeleton() -> Skeleton {
    Skeleton::new(rest(), bind(), vec!["pelvis".to_string(), "spine".to_string(), "root".to_string()])
}

#[test]
fn a_skeleton_keeps_its_poses_and_names() {
    let s = skeleton();
    assert_eq!(s.rest_pose, rest());
    assert_eq!(s.bind_pose, bind());
    assert_eq!(*s.rest_pose(), rest());
    assert_eq!(*s.bind_pose(), bind());
    assert_eq!(s.joint_count(), 3);
    assert_eq!(s.joint_name(0), "pelvis");
    assert_eq!(s.joint_name(2), "root");
    assert!(s.joint_is_named(1, &"spine".to_string()));
    assert!(!s.joint_is_named(1, &"Spine".to_string()));
}

#[test]
fn inverse_bind_matrices_undo_the_bind_pose() {
    let s = skeleton();
    let matrices = s.inverse_bind_pose();
    assert_eq!(matrices.len(), 3);
    for i in 0..3 {
        let world = s.bind_pose.global_transform(i);
        assert_eq!(matrices[i], world.inverse().to_matrix());
        let product = world.to_matrix() * matrices[i];
        assert!(product.abs_diff_eq(Mat4::IDENTITY, 1.0e-5));
    }
}

#[test]
fn inverse_bind_matrices_follow_a_changed_bind_pose() {
    let mut s = skeleton();
    let before = s.inverse_bind_pose()[1];
    s.bind_pose.set_local_transform(0, bone(9.0, 9.0, 0.0, 1.0));
    s.update_inverse_bind_pose();
    assert_ne!(s.inverse_bind_pose()[1], before);
    assert_eq!(s.inverse_bind_pose()[1], s.bind_pose.global_transform(1).inverse().to_matrix());
    assert_eq!(s.joint_name(1), "spine");
}

#[test]
fn the_skin_palette_of_the_bind_pose_is_the_identity() {
    let s = skeleton();
    let palette = s.skin_palette(&bind());
    assert_eq!(palette.len(), 3);
    for m in palette.iter() {
        assert!(m.abs_diff_eq(Mat4::IDENTITY, 1.0e-5));
    }
}

#[test]
fn the_skin_palette_multiplies_palette_and_inverse_bind() {
    let s = skeleton();
    let pose = rest();
    let palette = pose.matrix_palette();
    let skin = s.skin_palette(&pose);
    for i in 0..3 {
        assert_eq!(skin[i], palette[i] * s.inverse_bind_pose()[i]);
    }
    assert!(!skin[1].abs_diff_eq(Mat4::IDENTITY, 1.0e-3));
}
