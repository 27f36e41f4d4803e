//! Poses, names and frames from the decoded data of an asset: the nodes of a
//! scene with their children, the inverse bind matrices of a skin, the times
//! and values of an animation channel.

use crate::frame::Frame;
use crate::glam_ops::{mat4_inverse, mat4_inverted};
use crate::glam_transform::Transform;
use crate::pose::Pose;
use crate::time::Time;
use glam::Mat4;
use std::collections::HashMap;
use vstd::prelude::*;

verus! {

broadcast use vstd::std_specs::hash::group_hash_axioms;

/// Whether `child` is among the first `upto` entries of `listed`.
pub open spec fn lists(listed: Seq<usize>, child: int, upto: int) -> bool {
    exists|i: int| 0 <= i < upto && #[trigger] listed[i] == child
}

/// The last of the first `upto` nodes that lists `child` among its children.
pub open spec fn spec_parent_of(children: Seq<Vec<usize>>, child: int, upto: int) -> Option<usize>
    decreases upto,
{
    if upto <= 0 {
        None
    } else if lists(children[upto - 1]@, child, children[upto - 1]@.len() as int) {
        Some((upto - 1) as usize)
    } else {
        spec_parent_of(children, child, upto - 1)
    }
}

/// The last of the first `upto` entries of `joints` that names `joint`.
pub open spec fn spec_listing(joints: Seq<usize>, joint: int, upto: int) -> Option<int>
    decreases upto,
{
    if upto <= 0 {
        None
    } else if joints[upto - 1] == joint {
        Some(upto - 1)
    } else {
        spec_listing(joints, joint, upto - 1)
    }
}

/// Where joint `joint` stands in space when the skin is bound: where its
/// inverse bind matrix, inverted, puts it; or, for a joint that the skin
/// does not list, where the rest pose has it.
pub open spec fn spec_bind_world(
    rest_pose: Pose,
    joints: Seq<usize>,
    inverse_bind_matrices: Seq<Mat4>,
    joint: int,
) -> Transform {
    match spec_listing(joints, joint, joints.len() as int) {
        Some(i) => Transform::spec_from_matrix(mat4_inverted(inverse_bind_matrices[i])),
        None => rest_pose.spec_global_transform(joint),
    }
}

/// What `map` holds for `key`, if anything.
pub open spec fn held(map: Map<usize, usize>, key: usize) -> Option<usize> {
    if map.contains_key(key) {
        Some(map[key])
    } else {
        None
    }
}

/// The parent of each node that some node lists as a child. A node that
/// several nodes list gets the last of them for its parent.
pub fn children_to_parent(children: &Vec<Vec<usize>>) -> (r: HashMap<usize, usize>)
    ensures
        forall|c: usize| #[trigger]
            held(r@, c) == spec_parent_of(children@, c as int, children@.len() as int),
{
    let mut result: HashMap<usize, usize> = HashMap::new();
    let mut parent: usize = 0;
    while parent < children.len()
        invariant
            parent <= children@.len(),
            forall|c: usize| #[trigger]
                held(result@, c) == spec_parent_of(children@, c as int, parent as int),
        decreases children@.len() - parent,
    {
        let ghost before = result@;
        let listed = &children[parent];
        let mut k: usize = 0;
        while k < listed.len()
            invariant
                k <= listed@.len(),
                parent < children@.len(),
                *listed == children@[parent as int],
                forall|c: usize| #[trigger]
                    held(result@, c) == (if lists(listed@, c as int, k as int) {
                        Some(parent)
                    } else {
                        held(before, c)
                    }),
            decreases listed@.len() - k,
        {
            let child = listed[k];
            let ghost earlier = result@;
            result.insert(child, parent);
            proof {
                assert(result@ == earlier.insert(child, parent));
                assert forall|c: usize| #[trigger]
                    held(result@, c) == (if lists(listed@, c as int, k + 1) {
                        Some(parent)
                    } else {
                        held(before, c)
                    }) by {
                    assert(held(earlier, c) == (if lists(listed@, c as int, k as int) {
                        Some(parent)
                    } else {
                        held(before, c)
                    }));
                    if c == child {
                        assert(listed@[k as int] == c);
                    } else if lists(listed@, c as int, k + 1) {
                        let i = choose|i: int| 0 <= i < k + 1 && #[trigger] listed@[i] == c;
                        assert(0 <= i < k && listed@[i] == c);
                    }
                }
            }
            k += 1;
        }
        proof {
            assert forall|c: usize| #[trigger]
                held(result@, c) == spec_parent_of(children@, c as int, parent + 1) by {
                assert(held(before, c) == spec_parent_of(children@, c as int, parent as int));
            }
        }
        parent += 1;
    }
    result
}

/// The pose of a scene at rest: the local transform of each node, and for
/// its parent the node that lists it as a child. Whether the result is the
/// pose of a skeleton depends on the children; see
/// [`Pose::is_well_formed`].
pub fn load_rest_pose(locals: &Vec<Transform>, children: &Vec<Vec<usize>>) -> (r: Pose)
    ensures
        r@.joints == locals@,
        r@.parents.len() == locals@.len(),
        forall|c: int|
            0 <= c < locals@.len() ==> #[trigger] r@.parents[c] == spec_parent_of(
                children@,
                c,
                children@.len() as int,
            ),
{
    let children_to_parent = children_to_parent(children);
    let mut result = Pose::new();
    let mut i: usize = 0;
    while i < locals.len()
        invariant
            i <= locals@.len(),
            forall|c: usize| #[trigger]
                held(children_to_parent@, c) == spec_parent_of(
                    children@,
                    c as int,
                    children@.len() as int,
                ),
            result@.joints == locals@.take(i as int),
            result@.parents.len() == i,
            forall|c: int|
                0 <= c < i ==> #[trigger] result@.parents[c] == spec_parent_of(
                    children@,
                    c,
                    children@.len() as int,
                ),
        decreases locals@.len() - i,
    {
        result.add_local_transform(locals[i]);
        let parent = match children_to_parent.get(&i) {
            Some(p) => Some(*p),
            None => None,
        };
        proof {
            assert(parent == held(children_to_parent@, i));
            assert(locals@.take(i + 1) == locals@.take(i as int).push(locals@[i as int]));
        }
        result.add_parent(parent);
        i += 1;
    }
    proof {
        assert(locals@.take(locals@.len() as int) == locals@);
    }
    result
}

/// The pose in which a skin was bound to its skeleton. Entry `i` of `joints`
/// names the joint that inverse bind matrix `i` belongs to. Each joint's
/// local transform leads from where its parent stands in space, when the
/// skin is bound, to where the joint stands then.
pub fn load_bind_pose(rest_pose: &Pose, joints: &Vec<usize>, inverse_bind_matrices: &Vec<Mat4>) -> (r:
    Pose)
    requires
        rest_pose.wf(),
        joints@.len() <= inverse_bind_matrices@.len(),
        forall|i: int| 0 <= i < joints@.len() ==> (#[trigger] joints@[i]) < rest_pose@.joints.len(),
    ensures
        r@.parents == rest_pose@.parents,
        r@.joints.len() == rest_pose@.joints.len(),
        forall|j: int|
            0 <= j < r@.joints.len() ==> #[trigger] r@.joints[j] == (match rest_pose@.parents[j] {
                Some(p) => Transform::spec_combine(
                    Transform::spec_inverse(
                        spec_bind_world(*rest_pose, joints@, inverse_bind_matrices@, p as int),
                    ),
                    spec_bind_world(*rest_pose, joints@, inverse_bind_matrices@, j),
                ),
                None => spec_bind_world(*rest_pose, joints@, inverse_bind_matrices@, j),
            }),
{
    let num_bones = rest_pose.len();
    let mut world_bind_pose: Vec<Transform> = Vec::new();
    let mut i: usize = 0;
    while i < num_bones
        invariant
            rest_pose.wf(),
            num_bones == rest_pose@.joints.len(),
            i <= num_bones,
            world_bind_pose@.len() == i,
            forall|j: int|
                0 <= j < i ==> #[trigger] world_bind_pose@[j] == rest_pose.spec_global_transform(j),
        decreases num_bones - i,
    {
        world_bind_pose.push(rest_pose.global_transform(i));
        i += 1;
    }
    let mut k: usize = 0;
    while k < joints.len()
        invariant
            k <= joints@.len(),
            joints@.len() <= inverse_bind_matrices@.len(),
            forall|i: int| 0 <= i < joints@.len() ==> (#[trigger] joints@[i]) < num_bones,
            world_bind_pose@.len() == num_bones,
            forall|j: int|
                0 <= j < num_bones ==> #[trigger] world_bind_pose@[j] == (match spec_listing(
                    joints@,
                    j,
                    k as int,
                ) {
                    Some(i) => Transform::spec_from_matrix(mat4_inverted(inverse_bind_matrices@[i])),
                    None => rest_pose.spec_global_transform(j),
                }),
        decreases joints@.len() - k,
    {
        let bind_matrix = mat4_inverse(inverse_bind_matrices[k]);
        world_bind_pose.set(joints[k], Transform::from_matrix(bind_matrix));
        k += 1;
    }
    let mut bind_pose = rest_pose.clone();
    let mut j: usize = 0;
    while j < num_bones
        invariant
            rest_pose.wf(),
            num_bones == rest_pose@.joints.len(),
            j <= num_bones,
            world_bind_pose@.len() == num_bones,
            forall|i: int|
                0 <= i < num_bones ==> #[trigger] world_bind_pose@[i] == spec_bind_world(
                    *rest_pose,
                    joints@,
                    inverse_bind_matrices@,
                    i,
                ),
            bind_pose@.parents == rest_pose@.parents,
            bind_pose@.joints.len() == num_bones,
            forall|i: int|
                0 <= i < j ==> #[trigger] bind_pose@.joints[i] == (match rest_pose@.parents[i] {
                    Some(p) => Transform::spec_combine(
                        Transform::spec_inverse(
                            spec_bind_world(*rest_pose, joints@, inverse_bind_matrices@, p as int),
                        ),
                        spec_bind_world(*rest_pose, joints@, inverse_bind_matrices@, i),
                    ),
                    None => spec_bind_world(*rest_pose, joints@, inverse_bind_matrices@, i),
                }),
        decreases num_bones - j,
    {
        let mut current = world_bind_pose[j];
        proof {
            rest_pose.lemma_global_transform(j as int);
        }
        match bind_pose.parent(j) {
            Some(parent) => {
                current = world_bind_pose[parent].inverse().combine(&current);
            },
            None => {},
        }
        bind_pose.set_local_transform(j, current);
        j += 1;
    }
    bind_pose
}

/// The names of the nodes of a scene, `"EMPTY NODE"` for a node without a
/// name.
pub fn load_joint_names(names: &Vec<Option<String>>) -> (r: Vec<String>)
    ensures
        r@.len() == names@.len(),
        forall|i: int|
            0 <= i < r@.len() ==> (#[trigger] r@[i])@ == (match names@[i] {
                Some(n) => n@,
                None => "EMPTY NODE"@,
            }),
{
    let mut res: Vec<String> = Vec::new();
    let mut i: usize = 0;
    while i < names.len()
        invariant
            i <= names@.len(),
            res@.len() == i,
            forall|k: int|
                0 <= k < i ==> (#[trigger] res@[k])@ == (match names@[k] {
                    Some(n) => n@,
                    None => "EMPTY NODE"@,
                }),
        decreases names@.len() - i,
    {
        match &names[i] {
            Some(n) => res.push(n.clone()),
            None => res.push("EMPTY NODE".to_owned()),
        }
        i += 1;
    }
    res
}

/// The frames of a channel that is not cubic: value `i` at time `i`, with
/// `zero` for both tangents.
pub fn frames_from_channel<T: Copy>(times: &Vec<Time>, values: &Vec<T>, zero: T) -> (r: Vec<
    Frame<T>,
>)
    requires
        times@.len() <= values@.len(),
    ensures
        r@.len() == times@.len(),
        forall|i: int|
            0 <= i < r@.len() ==> #[trigger] r@[i] == (Frame {
                value: values@[i],
                in_tangent: zero,
                out_tangent: zero,
                time: times@[i],
            }),
{
    let mut frames: Vec<Frame<T>> = Vec::new();
    let mut i: usize = 0;
    while i < times.len()
        invariant
            i <= times@.len(),
            times@.len() <= values@.len(),
            frames@.len() == i,
            forall|k: int|
                0 <= k < i ==> #[trigger] frames@[k] == (Frame {
                    value: values@[k],
                    in_tangent: zero,
                    out_tangent: zero,
                    time: times@[k],
                }),
        decreases times@.len() - i,
    {
        frames.push(Frame::new(times[i], zero, zero, values[i]));
        i += 1;
    }
    frames
}

} // verus!
