//! One keyframe of a track.

use crate::time::Time;
use vstd::prelude::*;

verus! {

/// A value at an instant, with the slopes at which a cubic track enters and
/// leaves it. The tangents are per second; other tracks ignore them.
#[derive(Debug, Clone)]
pub struct Frame<T> {
    pub value: T,
    pub in_tangent: T,
    pub out_tangent: T,
    pub time: Time,
}

impl<T> Frame<T> {
    /// A keyframe of the given parts.
    pub fn new(time: Time, in_tangent: T, out_tangent: T, value: T) -> (r: Frame<T>)
        ensures
            r == (Frame { value, in_tangent, out_tangent, time }),
    {
        Self { value, in_tangent, out_tangent, time }
    }

    /// A keyframe with both tangents at the type's default value.
    pub fn new_simple(time: Time, value: T) -> (r: Frame<T>) where T: Default
        ensures
            r.time == time,
            r.value == value,
            call_ensures(T::default, (), r.in_tangent),
            call_ensures(T::default, (), r.out_tangent),
    {
        Self::new(time, T::default(), T::default(), value)
    }
}

} // verus!
