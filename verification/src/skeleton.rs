//! A skeleton: the poses a rig was built in, the names of its joints, and
//! the matrices that lead from the bind pose back to each joint's own space.

use crate::glam_ops::{mat4_mul, mat4_product};
use crate::glam_transform::Transform;
use crate::pose::Pose;
use glam::Mat4;
use vstd::prelude::*;

verus! {

/// What a skeleton holds.
pub struct SkeletonView {
    pub rest_pose: Pose,
    pub bind_pose: Pose,
    pub joint_names: Seq<String>,
    pub inverse_bind_pose: Seq<Mat4>,
}

/// The static data of a rig. Joint `i` of both poses bears name `i`.
#[derive(Clone)]
pub struct Skeleton {
    pub rest_pose: Pose,
    pub bind_pose: Pose,
    joint_names: Vec<String>,
    pub inverse_bind_pose: Vec<Mat4>,
}

impl View for Skeleton {
    type V = SkeletonView;

    closed spec fn view(&self) -> SkeletonView {
        SkeletonView {
            rest_pose: self.rest_pose,
            bind_pose: self.bind_pose,
            joint_names: self.joint_names@,
            inverse_bind_pose: self.inverse_bind_pose@,
        }
    }
}

impl Skeleton {
    /// The matrix that undoes the global transform of joint `joint` in the
    /// bind pose.
    pub open spec fn spec_inverse_bind(bind_pose: Pose, joint: int) -> Mat4 {
        Transform::spec_matrix(Transform::spec_inverse(bind_pose.spec_global_transform(joint)))
    }

    /// Whether the inverse bind matrices are those of the bind pose.
    pub open spec fn wf(&self) -> bool {
        &&& self@.bind_pose.wf()
        &&& self@.inverse_bind_pose.len() == self@.bind_pose@.joints.len()
        &&& forall|i: int|
            0 <= i < self@.inverse_bind_pose.len() ==> #[trigger] self@.inverse_bind_pose[i]
                == Self::spec_inverse_bind(self@.bind_pose, i)
    }

    /// A skeleton of the given poses and names, with the inverse bind
    /// matrices worked out from the bind pose.
    pub fn new(rest_pose: Pose, bind_pose: Pose, joint_names: Vec<String>) -> (r: Self)
        requires
            bind_pose.wf(),
        ensures
            r@.rest_pose == rest_pose,
            r@.bind_pose == bind_pose,
            r@.joint_names == joint_names@,
            r.wf(),
    {
        let mut this = Self { rest_pose, bind_pose, joint_names, inverse_bind_pose: Vec::new() };
        this.update_inverse_bind_pose();
        this
    }

    /// The pose of the skeleton at rest.
    pub fn rest_pose(&self) -> (r: &Pose)
        ensures
            *r == self@.rest_pose,
    {
        &self.rest_pose
    }

    /// The pose in which the skin was bound to the skeleton.
    pub fn bind_pose(&self) -> (r: &Pose)
        ensures
            *r == self@.bind_pose,
    {
        &self.bind_pose
    }

    /// The number of joint names.
    pub fn joint_count(&self) -> (r: usize)
        ensures
            r == self@.joint_names.len(),
    {
        self.joint_names.len()
    }

    /// The name of joint `idx`.
    pub fn joint_name(&self, idx: usize) -> (r: &str)
        requires
            idx < self@.joint_names.len(),
        ensures
            r@ == self@.joint_names[idx as int]@,
    {
        self.joint_names[idx].as_str()
    }

    /// Whether joint `idx` bears `name`.
    pub fn joint_is_named(&self, idx: usize, name: &String) -> (r: bool)
        requires
            idx < self@.joint_names.len(),
        ensures
            r == (self@.joint_names[idx as int]@ == name@),
    {
        self.joint_names[idx] == *name
    }

    /// For each joint, the matrix that undoes its global transform in the
    /// bind pose.
    pub fn inverse_bind_pose(&self) -> (r: &Vec<Mat4>)
        ensures
            r@ == self@.inverse_bind_pose,
    {
        &self.inverse_bind_pose
    }

    /// The matrices that carry the vertices of a skinned mesh from the bind
    /// pose into `pose`: for each joint, its matrix in the pose's palette
    /// times its inverse bind matrix.
    pub fn skin_palette(&self, pose: &Pose) -> (r: Vec<Mat4>)
        requires
            pose.wf(),
            pose@.joints.len() <= self@.inverse_bind_pose.len(),
        ensures
            r@.len() == pose@.joints.len(),
            forall|i: int|
                0 <= i < r@.len() ==> #[trigger] r@[i] == mat4_product(
                    pose.spec_palette(i),
                    self@.inverse_bind_pose[i],
                ),
    {
        let palette = pose.matrix_palette();
        let mut result: Vec<Mat4> = Vec::new();
        let mut i: usize = 0;
        while i < palette.len()
            invariant
                i <= palette@.len(),
                palette@.len() == pose@.joints.len(),
                palette@.len() <= self.inverse_bind_pose@.len(),
                forall|k: int| 0 <= k < palette@.len() ==> palette@[k] == pose.spec_palette(k),
                result@.len() == i,
                forall|k: int|
                    0 <= k < i ==> #[trigger] result@[k] == mat4_product(
                        pose.spec_palette(k),
                        self.inverse_bind_pose@[k],
                    ),
            decreases palette@.len() - i,
        {
            result.push(mat4_mul(palette[i], self.inverse_bind_pose[i]));
            i += 1;
        }
        result
    }

    /// Works the inverse bind matrices out from the bind pose.
    pub fn update_inverse_bind_pose(&mut self)
        requires
            old(self)@.bind_pose.wf(),
        ensures
            final(self)@.rest_pose == old(self)@.rest_pose,
            final(self)@.bind_pose == old(self)@.bind_pose,
            final(self)@.joint_names == old(self)@.joint_names,
            final(self).wf(),
    {
        let n = self.bind_pose.len();
        let mut matrices: Vec<Mat4> = Vec::new();
        let mut i: usize = 0;
        while i < n
            invariant
                self.bind_pose.wf(),
                n == self.bind_pose@.joints.len(),
                i <= n,
                matrices@.len() == i,
                forall|k: int|
                    0 <= k < i ==> #[trigger] matrices@[k] == Self::spec_inverse_bind(
                        self.bind_pose,
                        k,
                    ),
            decreases n - i,
        {
            let world = self.bind_pose.global_transform(i);
            matrices.push(world.inverse().to_matrix());
            i += 1;
        }
        self.inverse_bind_pose = matrices;
    }
}

} // verus!
