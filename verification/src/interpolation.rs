//! How a track fills the time between two keyframes.

use vstd::prelude::*;

verus! {

#[derive(Clone, Copy, Debug, PartialEq, Eq, Structural)]
pub enum Interpolation {
    /// The earlier keyframe's value is held.
    Constant,
    /// Straight from one keyframe's value to the next.
    Linear,
    /// A Hermite curve through both values, bent by the tangents.
    Cubic,
}

} // verus!
