//! Translation, rotation and scale as one value.

use crate::glam_ops::{
    mat4_compose, mat4_composed, mat4_decompose, mat4_decomposed, quat_bits, quat_identity,
    quat_inverse, quat_inverted, quat_mul, quat_product, quat_rotate, quat_rotated, vec3_add,
    vec3_bits, vec3_mul, vec3_neg, vec3_negated, vec3_one, vec3_product, vec3_recip,
    vec3_reciprocal, vec3_sum, vec3_zero, ONE_BITS,
};
use crate::track_helpers::Neighborhood;
use glam::{Mat4, Quat, Vec3};
use vstd::prelude::*;

verus! {

/// A joint's placement relative to its parent, or any placement in space:
/// scale first, then rotation, then translation.
#[derive(Debug, PartialEq, Clone, Copy)]
pub struct Transform {
    pub translation: Vec3,
    pub rotation: Quat,
    pub scale: Vec3,
}

impl Transform {
    /// `child` expressed in the space that `parent` is expressed in: scales
    /// and rotations multiply, and the child's translation is scaled and
    /// rotated by the parent before the parent's translation is added.
    pub open spec fn spec_combine(parent: Transform, child: Transform) -> Transform {
        Transform {
            translation: vec3_sum(
                parent.translation,
                quat_rotated(parent.rotation, vec3_product(parent.scale, child.translation)),
            ),
            rotation: quat_product(parent.rotation, child.rotation),
            scale: vec3_product(parent.scale, child.scale),
        }
    }

    /// The transform that undoes `t`: the inverse rotation, the reciprocal
    /// scale, and the negated translation scaled and rotated by those two.
    pub open spec fn spec_inverse(t: Transform) -> Transform {
        Transform {
            translation: quat_rotated(
                quat_inverted(t.rotation),
                vec3_product(vec3_reciprocal(t.scale), vec3_negated(t.translation)),
            ),
            rotation: quat_inverted(t.rotation),
            scale: vec3_reciprocal(t.scale),
        }
    }

    /// The affine matrix of `t`.
    pub open spec fn spec_matrix(t: Transform) -> Mat4 {
        mat4_composed(t.scale, t.rotation, t.translation)
    }

    /// The transform read back from an affine matrix.
    pub open spec fn spec_from_matrix(m: Mat4) -> Transform {
        Transform {
            translation: mat4_decomposed(m).2,
            rotation: mat4_decomposed(m).1,
            scale: mat4_decomposed(m).0,
        }
    }

    /// Whether `t` is the neutral transform: no translation, the identity
    /// rotation, unit scale.
    pub open spec fn is_identity(t: Transform) -> bool {
        &&& vec3_bits(t.translation) == (0u32, 0u32, 0u32)
        &&& quat_bits(t.rotation) == (0u32, 0u32, 0u32, ONE_BITS)
        &&& vec3_bits(t.scale) == (ONE_BITS, ONE_BITS, ONE_BITS)
    }

    /// Whether `r` is a blend of `a` and `b`, with `lerp_vec3` and
    /// `lerp_quat` to go some of the way from one value to another: the
    /// translation and the scale go from `a`'s to `b`'s, the rotation from
    /// `a`'s to the one of `b`'s rotation and its negative that lies on the
    /// side of `a`'s, which is the short way round.
    pub open spec fn mixed<V: Fn(Vec3, Vec3) -> Vec3, Q: Fn(Quat, Quat) -> Quat>(
        a: Transform,
        b: Transform,
        lerp_vec3: V,
        lerp_quat: Q,
        r: Transform,
    ) -> bool {
        &&& call_ensures(lerp_vec3, (a.translation, b.translation), r.translation)
        &&& call_ensures(lerp_quat, (a.rotation, a.rotation.spec_neighbor(b.rotation)), r.rotation)
        &&& call_ensures(lerp_vec3, (a.scale, b.scale), r.scale)
    }

    /// The transform of the given parts.
    pub fn new(translation: Vec3, rotation: Quat, scale: Vec3) -> (r: Self)
        ensures
            r == (Transform { translation, rotation, scale }),
    {
        Self { translation, rotation, scale }
    }

    /// `other` carried from `self`'s space into the space `self` lives in.
    pub fn combine(&self, other: &Self) -> (r: Self)
        ensures
            r == Transform::spec_combine(*self, *other),
    {
        let scale = vec3_mul(self.scale, other.scale);
        let rotation = quat_mul(self.rotation, other.rotation);
        let translation = vec3_add(
            self.translation,
            quat_rotate(self.rotation, vec3_mul(self.scale, other.translation)),
        );
        Self { translation, rotation, scale }
    }

    /// The transform that undoes `self`.
    pub fn inverse(&self) -> (r: Self)
        ensures
            r == Transform::spec_inverse(*self),
    {
        let rotation = quat_inverse(self.rotation);
        let scale = vec3_recip(self.scale);
        let translation = quat_rotate(rotation, vec3_mul(scale, vec3_neg(self.translation)));
        Self { translation, rotation, scale }
    }

    /// A blend of `self` and `other`, the rotation taken the short way
    /// round. `lerp_vec3` and `lerp_quat` go some of the way from their first
    /// argument to their second; how far is theirs to know.
    pub fn mix<V: Fn(Vec3, Vec3) -> Vec3, Q: Fn(Quat, Quat) -> Quat>(
        &self,
        other: &Self,
        lerp_vec3: &V,
        lerp_quat: &Q,
    ) -> (r: Self)
        requires
            forall|a: Vec3, b: Vec3| call_requires(*lerp_vec3, (a, b)),
            forall|a: Quat, b: Quat| call_requires(*lerp_quat, (a, b)),
        ensures
            Transform::mixed(*self, *other, *lerp_vec3, *lerp_quat, r),
    {
        let mut other_rotation = other.rotation;
        self.rotation.neighborhood(&mut other_rotation);
        Transform {
            translation: lerp_vec3(self.translation, other.translation),
            rotation: lerp_quat(self.rotation, other_rotation),
            scale: lerp_vec3(self.scale, other.scale),
        }
    }

    /// The affine matrix of `self`.
    pub fn to_matrix(&self) -> (r: Mat4)
        ensures
            r == Transform::spec_matrix(*self),
    {
        mat4_compose(self.scale, self.rotation, self.translation)
    }

    /// The transform whose matrix is `value`, for an affine matrix without
    /// shear.
    pub fn from_matrix(value: Mat4) -> (r: Self)
        ensures
            r == Transform::spec_from_matrix(value),
    {
        let (scale, rotation, translation) = mat4_decompose(value);
        Self { translation, rotation, scale }
    }
}

impl From<Mat4> for Transform {
    /// The transform whose matrix is `value`.
    fn from(value: Mat4) -> (r: Self) {
        Transform::from_matrix(value)
    }
}

impl vstd::std_specs::convert::FromSpecImpl<Mat4> for Transform {
    open spec fn obeys_from_spec() -> bool {
        true
    }

    open spec fn from_spec(value: Mat4) -> Self {
        Transform::spec_from_matrix(value)
    }
}

impl From<Transform> for Mat4 {
    /// The affine matrix of `value`.
    fn from(value: Transform) -> (r: Self) {
        value.to_matrix()
    }
}

impl vstd::std_specs::convert::FromSpecImpl<Transform> for Mat4 {
    open spec fn obeys_from_spec() -> bool {
        true
    }

    open spec fn from_spec(value: Transform) -> Self {
        Transform::spec_matrix(value)
    }
}

impl Default for Transform {
    /// The neutral transform.
    fn default() -> (r: Self)
        ensures
            Transform::is_identity(r),
    {
        Self { translation: vec3_zero(), rotation: quat_identity(), scale: vec3_one() }
    }
}

} // verus!
