//! Four components of one kind.

use vstd::prelude::*;

verus! {

#[derive(Debug, Clone, Copy, PartialEq)]
pub struct Vector4<T> {
    pub x: T,
    pub y: T,
    pub z: T,
    pub w: T,
}

impl<T: Copy> Vector4<T> {
    /// The three components of `v`, then `w`.
    pub fn new(v: (T, T, T), w: T) -> (r: Self)
        ensures
            r == (Vector4 { x: v.0, y: v.1, z: v.2, w }),
    {
        Self { x: v.0, y: v.1, z: v.2, w }
    }

    /// The first three components.
    pub fn truncate(&self) -> (r: (T, T, T))
        ensures
            r == (self.x, self.y, self.z),
    {
        (self.x, self.y, self.z)
    }
}

} // verus!
