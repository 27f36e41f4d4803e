//! The `glam` values that the library carries, and the `glam` operations it
//! applies to them.
//!
//! Nothing here is proved: each function below hands its arguments to one
//! operation of `glam` and says that the result is that operation's result,
//! under a name that stands for it. `glam` is built with its scalar
//! implementation, so each operation is the same sequence of single-precision
//! additions, multiplications, divisions and square roots wherever it runs.
//!
//! `glam` is also built without its assertions, and that these functions
//! return for every input rests on it: in a build that turns `glam-assert`
//! or `debug-glam-assert` on, some of them panic on a rotation that is not
//! of unit length or on a vector without length.

use crate::time::is_negative_bits;
use glam::{Mat4, Quat, Vec3};
use vstd::prelude::*;

verus! {

#[verifier::external_type_specification]
#[verifier::external_body]
pub struct ExVec3(Vec3);

#[verifier::external_type_specification]
#[verifier::external_body]
pub struct ExQuat(Quat);

#[verifier::external_type_specification]
#[verifier::external_body]
pub struct ExMat4(Mat4);

/// The bit pattern of 1 in single precision.
pub const ONE_BITS: u32 = 0x3f80_0000;

/// The bit pattern of -1 in single precision.
pub const MINUS_ONE_BITS: u32 = 0xbf80_0000;

/// The single-precision bit patterns of a vector's `x`, `y` and `z`.
pub uninterp spec fn vec3_bits(v: Vec3) -> (u32, u32, u32);

/// The single-precision bit patterns of a quaternion's `x`, `y`, `z` and `w`.
pub uninterp spec fn quat_bits(q: Quat) -> (u32, u32, u32, u32);

/// `a + b`, component by component.
pub uninterp spec fn vec3_sum(a: Vec3, b: Vec3) -> Vec3;

/// `a - b`, component by component.
pub uninterp spec fn vec3_difference(a: Vec3, b: Vec3) -> Vec3;

/// `a * b`, component by component.
pub uninterp spec fn vec3_product(a: Vec3, b: Vec3) -> Vec3;

/// `-v`.
pub uninterp spec fn vec3_negated(v: Vec3) -> Vec3;

/// The vector of the reciprocals of `v`'s components.
pub uninterp spec fn vec3_reciprocal(v: Vec3) -> Vec3;

/// The cross product `a × b`.
pub uninterp spec fn vec3_cross_product(a: Vec3, b: Vec3) -> Vec3;

/// `v` scaled by the reciprocal of its length.
pub uninterp spec fn vec3_normalized(v: Vec3) -> Vec3;

/// `-q`: every component of `q` negated.
pub uninterp spec fn quat_negated(q: Quat) -> Quat;

/// Whether the dot product of `a` and `b` is a number below zero.
pub uninterp spec fn quat_dot_negative(a: Quat, b: Quat) -> bool;

/// The quaternion product `a * b`.
pub uninterp spec fn quat_product(a: Quat, b: Quat) -> Quat;

/// `v` rotated by `q`.
pub uninterp spec fn quat_rotated(q: Quat, v: Vec3) -> Vec3;

/// The conjugate of `q`, which inverts a unit quaternion.
pub uninterp spec fn quat_inverted(q: Quat) -> Quat;

/// `q` scaled by the reciprocal of its length.
pub uninterp spec fn quat_normalized(q: Quat) -> Quat;

/// The affine matrix that scales, then rotates, then translates.
pub uninterp spec fn mat4_composed(scale: Vec3, rotation: Quat, translation: Vec3) -> Mat4;

/// The scale, rotation and translation read back from an affine matrix.
pub uninterp spec fn mat4_decomposed(m: Mat4) -> (Vec3, Quat, Vec3);

/// The inverse of `m`, as the adjugate over the determinant gives it.
pub uninterp spec fn mat4_inverted(m: Mat4) -> Mat4;

/// The matrix product `a * b`.
pub uninterp spec fn mat4_product(a: Mat4, b: Mat4) -> Mat4;

/// `glam::Vec3::ZERO`: every component is positive zero.
#[verifier::external_body]
pub(crate) fn vec3_zero() -> (r: Vec3)
    ensures
        vec3_bits(r) == (0u32, 0u32, 0u32),
{
    Vec3::ZERO
}

/// `glam::Vec3::ONE`: every component is 1.
#[verifier::external_body]
pub(crate) fn vec3_one() -> (r: Vec3)
    ensures
        vec3_bits(r) == (ONE_BITS, ONE_BITS, ONE_BITS),
{
    Vec3::ONE
}

/// `glam::Vec3::NEG_Y`: the unit vector along -y, with positive zeros in `x`
/// and `z`.
#[verifier::external_body]
pub(crate) fn vec3_neg_y() -> (r: Vec3)
    ensures
        vec3_bits(r) == (0u32, MINUS_ONE_BITS, 0u32),
{
    Vec3::NEG_Y
}

/// `glam::Quat::IDENTITY`: `x`, `y`, `z` are positive zero and `w` is 1.
#[verifier::external_body]
pub(crate) fn quat_identity() -> (r: Quat)
    ensures
        quat_bits(r) == (0u32, 0u32, 0u32, ONE_BITS),
{
    Quat::IDENTITY
}

/// `glam::Vec3`'s `+`. The contract names the result.
#[verifier::external_body]
pub(crate) fn vec3_add(a: Vec3, b: Vec3) -> (r: Vec3)
    ensures
        r == vec3_sum(a, b),
{
    a + b
}

/// `glam::Vec3`'s binary `-`. The contract names the result.
#[verifier::external_body]
pub(crate) fn vec3_sub(a: Vec3, b: Vec3) -> (r: Vec3)
    ensures
        r == vec3_difference(a, b),
{
    a - b
}

/// `glam::Vec3`'s `*` with a vector on the right. The contract names the
/// result.
#[verifier::external_body]
pub(crate) fn vec3_mul(a: Vec3, b: Vec3) -> (r: Vec3)
    ensures
        r == vec3_product(a, b),
{
    a * b
}

/// `glam::Vec3`'s unary `-`. The contract names the result.
#[verifier::external_body]
pub(crate) fn vec3_neg(v: Vec3) -> (r: Vec3)
    ensures
        r == vec3_negated(v),
{
    -v
}

/// `glam::Vec3::recip`. It divides 1 by each component and never fails: a
/// zero component gives an infinity. The contract names the result.
#[verifier::external_body]
pub(crate) fn vec3_recip(v: Vec3) -> (r: Vec3)
    ensures
        r == vec3_reciprocal(v),
{
    v.recip()
}

/// `glam::Vec3::cross`. The contract names the result.
#[verifier::external_body]
pub(crate) fn vec3_cross(a: Vec3, b: Vec3) -> (r: Vec3)
    ensures
        r == vec3_cross_product(a, b),
{
    a.cross(b)
}

/// `glam::Vec3::normalize`. Built without `glam`'s assertions it returns for
/// every input; of a vector without length, or of infinite length, it makes
/// no unit vector. The contract names the result.
#[verifier::external_body]
pub(crate) fn vec3_normalize(v: Vec3) -> (r: Vec3)
    ensures
        r == vec3_normalized(v),
{
    v.normalize()
}

/// `glam::Quat`'s `*` with a quaternion on the right. The contract names the
/// result.
#[verifier::external_body]
pub(crate) fn quat_mul(a: Quat, b: Quat) -> (r: Quat)
    ensures
        r == quat_product(a, b),
{
    a * b
}

/// `glam::Quat`'s unary `-`. The contract names the result.
#[verifier::external_body]
pub(crate) fn quat_neg(q: Quat) -> (r: Quat)
    ensures
        r == quat_negated(q),
{
    -q
}

/// `glam::Quat::dot`, handed back as the bit pattern of the single-precision
/// result. The contract names whether that result is a number below zero,
/// which the bit pattern shows.
#[verifier::external_body]
pub(crate) fn quat_dot_bits(a: Quat, b: Quat) -> (r: u32)
    ensures
        is_negative_bits(r) == quat_dot_negative(a, b),
{
    a.dot(b).to_bits()
}

/// `glam::Quat`'s `*` with a vector on the right. Built without `glam`'s
/// assertions it returns for every input. The contract names the result.
#[verifier::external_body]
pub(crate) fn quat_rotate(q: Quat, v: Vec3) -> (r: Vec3)
    ensures
        r == quat_rotated(q, v),
{
    q * v
}

/// `glam::Quat::inverse`, which returns the conjugate. Built without `glam`'s
/// assertions it returns for every input. The contract names the result.
#[verifier::external_body]
pub(crate) fn quat_inverse(q: Quat) -> (r: Quat)
    ensures
        r == quat_inverted(q),
{
    q.inverse()
}

/// `glam::Quat::normalize`. Built without `glam`'s assertions it returns for
/// every input. The contract names the result.
#[verifier::external_body]
pub(crate) fn quat_normalize(q: Quat) -> (r: Quat)
    ensures
        r == quat_normalized(q),
{
    q.normalize()
}

/// `glam::Mat4::from_scale_rotation_translation`. Built without `glam`'s
/// assertions it returns for every input. The contract names the result.
#[verifier::external_body]
pub(crate) fn mat4_compose(scale: Vec3, rotation: Quat, translation: Vec3) -> (r: Mat4)
    ensures
        r == mat4_composed(scale, rotation, translation),
{
    Mat4::from_scale_rotation_translation(scale, rotation, translation)
}

/// `glam::Mat4::to_scale_rotation_translation`. Built without `glam`'s
/// assertions it returns for every input. The contract names the result.
#[verifier::external_body]
pub(crate) fn mat4_decompose(m: Mat4) -> (r: (Vec3, Quat, Vec3))
    ensures
        r == mat4_decomposed(m),
{
    m.to_scale_rotation_translation()
}

/// `glam::Mat4::inverse`. Built without `glam`'s assertions it returns for
/// every input, with components that are no numbers where the matrix has no
/// inverse. The contract names the result.
#[verifier::external_body]
pub(crate) fn mat4_inverse(m: Mat4) -> (r: Mat4)
    ensures
        r == mat4_inverted(m),
{
    m.inverse()
}

/// `glam::Mat4`'s `*` with a matrix on the right. The contract names the
/// result.
#[verifier::external_body]
pub(crate) fn mat4_mul(a: Mat4, b: Mat4) -> (r: Mat4)
    ensures
        r == mat4_product(a, b),
{
    a * b
}

} // verus!
