use animation::frame::Frame;
use animation::glam_transform::Transform;
use animation::loader::{
    children_to_parent, frames_from_channel, load_bind_pose, load_joint_names, load_rest_pose,
};
use animation::pose::Pose;
use animation::time::Time;
use glam::{Mat4, Quat, Vec3};
use std::collections::HashMap;

fn tick(seconds: f32) -> Time {
    Time::from_bits(seconds.to_bits()).expect("a finite instant")
}

fn node(x: f32, y: f32, turn: f32) -> Transform {
    Transform::new(Vec3::new(x, y, 1.0), Quat::from_rotation_y(turn), Vec3::splat(2.0))
}

fn nodes() -> Vec<Transform> {
    vec![node(0.0, 1.0, 0.1), node(1.0, 0.0, 0.2), node(2.0, 2.0, 0.3), node(0.5, 0.5, 0.4)]
}

#[test]
fn parents_are_read_off_the_children() {
    let children = vec![vec![], vec![0, 3], vec![1], vec![]];
    let expected: HashMap<usize, usize> = [(0, 1), (3, 1), (1, 2)].into_iter().collect();
    assert_eq!(children_to_parent(&children), expected);
}

#[test]
fn the_last_node_that_lists_a_child_is_its_parent() {
    let children = vec![vec![2], vec![2, 2], vec![], vec![0]];
    let expected: HashMap<usize, usize> = [(2, 1), (0, 3)].into_iter().collect();
    assert_eq!(children_to_parent(&children), expected);
}

#[test]
fn children_that_are_no_nodes_get_a_parent_too() {
    let children = vec![vec![1, 7], vec![9]];
    let parents = children_to_parent(&children);
    assert_eq!(parents.len(), 3);
    assert_eq!(parents.get(&7), Some(&0));
    assert_eq!(parents.get(&9), Some(&1));
    assert_eq!(parents.get(&0), None);
    assert!(children_to_parent(&vec![]).is_empty());
    // the rest pose looks up its own nodes only
    let pose = load_rest_pose(&nodes()[..2].to_vec(), &children);
    assert_eq!(pose.parent(0), None);
    assert_eq!(pose.parent(1), Some(0));
    // and has a joint for each node, with or without a list of children
    let pose = load_rest_pose(&nodes(), &children);
    assert_eq!(pose.len(), 4);
    assert_eq!(pose.parent(3), None);
}

#[test]
fn the_rest_pose_has_the_nodes_and_their_parents() {
    let children = vec![vec![], vec![0, 3], vec![1], vec![]];
    let pose = load_rest_pose(&nodes(), &children);
    assert_eq!(pose.len(), 4);
    assert_eq!(pose.parents_len(), 4);
    for i in 0..4 {
        assert_eq!(*pose.local_transform(i), nodes()[i]);
    }
    assert_eq!(pose.parent(0), Some(1));
    assert_eq!(pose.parent(1), Some(2));
    assert_eq!(pose.parent(2), None);
    assert_eq!(pose.parent(3), Some(1));
    assert!(pose.is_well_formed());
}

#[test]
fn children_that_list_each_other_give_no_skeleton() {
    let pose = load_rest_pose(&nodes()[..2].to_vec(), &vec![vec![1], vec![0]]);
    assert!(!pose.is_well_formed());
}

#[test]
fn a_bind_pose_without_a_skin_is_the_rest_pose_up_to_rounding() {
    let rest = load_rest_pose(&nodes(), &vec![vec![], vec![0, 3], vec![1], vec![]]);
    let bind = load_bind_pose(&rest, &vec![], &vec![]);
    assert_eq!(bind.len(), 4);
    for i in 0..4 {
        assert_eq!(bind.parent(i), rest.parent(i));
        let expected = match rest.parent(i) {
            Some(p) => rest.global_transform(p).inverse().combine(&rest.global_transform(i)),
            None => rest.global_transform(i),
        };
        assert_eq!(*bind.local_transform(i), expected);
        assert!((bind.local_transform(i).translation - rest.local_transform(i).translation).length() < 1.0e-5);
    }
}

#[test]
fn a_bind_pose_puts_skinned_joints_where_their_matrices_say() {
    let rest = load_rest_pose(&nodes(), &vec![vec![], vec![0, 3], vec![1], vec![]]);
    // joint 1 was bound at (5, 6, 7), joint 0 at (5, 8, 7), unturned and unscaled
    let at = |x: f32, y: f32, z: f32| Mat4::from_translation(Vec3::new(x, y, z)).inverse();
    let bind = load_bind_pose(&rest, &vec![1, 0], &vec![at(5.0, 6.0, 7.0), at(5.0, 8.0, 7.0)]);
    let world1 = Transform::from_matrix(at(5.0, 6.0, 7.0).inverse());
    let world0 = Transform::from_matrix(at(5.0, 8.0, 7.0).inverse());
    assert_eq!(world1.translation, Vec3::new(5.0, 6.0, 7.0));
    // joint 0 hangs on joint 1
    assert_eq!(*bind.local_transform(0), world1.inverse().combine(&world0));
    assert_eq!(bind.local_transform(0).translation, Vec3::new(0.0, 2.0, 0.0));
    // joint 1 hangs on joint 2, which the skin does not list
    let world2 = rest.global_transform(2);
    assert_eq!(*bind.local_transform(1), world2.inverse().combine(&world1));
    assert_eq!(*bind.local_transform(2), world2);
    // joint 3 hangs on joint 1 and is not listed itself
    assert_eq!(*bind.local_transform(3), world1.inverse().combine(&rest.global_transform(3)));
    let placed = bind.global_transform(0).translation;
    assert!((placed - Vec3::new(5.0, 8.0, 7.0)).length() < 1.0e-4);
}

#[test]
fn the_last_matrix_listed_for_a_joint_counts() {
    let mut rest = Pose::new();
    rest.add_local_transform(Transform::default());
    rest.add_parent(None);
    let at = |x: f32| Mat4::from_translation(Vec3::new(x, 0.0, 0.0)).inverse();
    let bind = load_bind_pose(&rest, &vec![0, 0], &vec![at(1.0), at(2.0), at(3.0)]);
    assert_eq!(bind.local_transform(0).translation, Vec3::new(2.0, 0.0, 0.0));
}

#[test]
fn nodes_without_a_name_are_empty_nodes() {
    let names = vec![Some("hip".to_string()), None, Some(String::new()), None];
    assert_eq!(load_joint_names(&names), vec!["hip", "EMPTY NODE", "", "EMPTY NODE"]);
    assert!(load_joint_names(&vec![]).is_empty());
}

#[test]
fn a_channel_becomes_frames_without_tangents() {
    let times = vec![tick(0.0), tick(0.5), tick(2.0)];
    let values = vec![Vec3::X, Vec3::Y, Vec3::Z, Vec3::ONE];
    let frames: Vec<Frame<Vec3>> = frames_from_channel(&times, &values, Vec3::ZERO);
    assert_eq!(frames.len(), 3);
    for i in 0..3 {
        assert!(frames[i].time.same(times[i]));
        assert_eq!(frames[i].value, values[i]);
        assert_eq!(frames[i].in_tangent, Vec3::ZERO);
        assert_eq!(frames[i].out_tangent, Vec3::ZERO);
    }
    let none: Vec<Frame<f32>> = frames_from_channel(&vec![], &vec![1.0], 0.0);
    assert!(none.is_empty());
}
