//! What the kinds of animated values do differently when a track is
//! evaluated.

use crate::glam_ops::{
    quat_dot_bits, quat_dot_negative, quat_neg, quat_negated, quat_normalize, quat_normalized,
};
use crate::time::bits_are_negative;
use glam::{Quat, Vec3};
use vstd::prelude::*;

verus! {

/// How a value is brought to the side of another before the two are
/// blended, for the kinds of value of which two stand for the same thing.
pub trait Neighborhood: Sized {
    /// `other`, or what stands for the same on the side of `self`.
    spec fn spec_neighbor(&self, other: Self) -> Self;

    fn neighborhood(&self, other: &mut Self)
        ensures
            *final(other) == self.spec_neighbor(*old(other)),
    ;
}

impl Neighborhood for Vec3 {
    /// A vector stands for nothing but itself.
    open spec fn spec_neighbor(&self, other: Self) -> Self {
        other
    }

    fn neighborhood(&self, _other: &mut Self) {
    }
}

impl Neighborhood for Quat {
    /// A rotation and its negative are the same rotation. The one on the
    /// side of `self` is the one whose dot product with `self` is not below
    /// zero.
    open spec fn spec_neighbor(&self, other: Self) -> Self {
        if quat_dot_negative(*self, other) {
            quat_negated(other)
        } else {
            other
        }
    }

    fn neighborhood(&self, other: &mut Self) {
        if bits_are_negative(quat_dot_bits(*self, *other)) {
            *other = quat_neg(*other);
        }
    }
}

/// How a value that a Hermite curve has produced is brought back among the
/// values of its kind.
pub trait AdjustHermiteResult: Sized {
    /// The value that stands for `self`.
    spec fn spec_adjust_hermite_result(&self) -> Self;

    fn adjust_hermite_result(&self) -> (r: Self)
        ensures
            r == self.spec_adjust_hermite_result(),
    ;
}

impl AdjustHermiteResult for Vec3 {
    /// A vector is taken as the curve gives it.
    open spec fn spec_adjust_hermite_result(&self) -> Self {
        *self
    }

    fn adjust_hermite_result(&self) -> (r: Self) {
        *self
    }
}

impl AdjustHermiteResult for Quat {
    /// A rotation is scaled back to unit length.
    open spec fn spec_adjust_hermite_result(&self) -> Self {
        quat_normalized(*self)
    }

    fn adjust_hermite_result(&self) -> (r: Self) {
        quat_normalize(*self)
    }
}

} // verus!
