//! Rays and the triangles they are cast against.

use crate::glam_ops::{
    vec3_bits, vec3_cross, vec3_cross_product, vec3_difference, vec3_neg_y, vec3_normalize,
    vec3_normalized, vec3_sub, MINUS_ONE_BITS,
};
use glam::Vec3;
use vstd::prelude::*;

verus! {

/// A half-line from `origin` along `direction`.
pub struct Ray {
    pub origin: Vec3,
    pub direction: Vec3,
}

/// A corner of a mesh.
pub struct Vertex {
    pub position: Vec3,
}

/// What a triangle holds.
pub struct TriangleView {
    pub v0: Vec3,
    pub v1: Vec3,
    pub v2: Vec3,
    pub normal: Vec3,
}

/// Three corners and the unit normal of the plane through them. The normal
/// follows from the corners and cannot be set apart from them.
pub struct Triangle {
    v0: Vec3,
    v1: Vec3,
    v2: Vec3,
    normal: Vec3,
}

impl View for Triangle {
    type V = TriangleView;

    closed spec fn view(&self) -> TriangleView {
        TriangleView { v0: self.v0, v1: self.v1, v2: self.v2, normal: self.normal }
    }
}

impl Ray {
    /// The ray from `origin` straight down.
    pub fn new(origin: Vec3) -> (r: Self)
        ensures
            r.origin == origin,
            vec3_bits(r.direction) == (0u32, MINUS_ONE_BITS, 0u32),
    {
        Self { origin, direction: vec3_neg_y() }
    }
}

impl Triangle {
    /// The normal of the triangle with the given corners: the cross product
    /// of the edges that leave `v0`, scaled to unit length.
    pub open spec fn spec_normal(v0: Vec3, v1: Vec3, v2: Vec3) -> Vec3 {
        vec3_normalized(vec3_cross_product(vec3_difference(v1, v0), vec3_difference(v2, v0)))
    }

    /// The triangle with the given corners.
    pub open spec fn spec_new(v0: Vec3, v1: Vec3, v2: Vec3) -> TriangleView {
        TriangleView { v0, v1, v2, normal: Self::spec_normal(v0, v1, v2) }
    }

    /// The triangle with the given corners.
    pub fn new(v0: Vec3, v1: Vec3, v2: Vec3) -> (r: Self)
        ensures
            r@ == Self::spec_new(v0, v1, v2),
    {
        Self { v0, v1, v2, normal: vec3_normalize(vec3_cross(vec3_sub(v1, v0), vec3_sub(v2, v0))) }
    }

    /// The first corner.
    pub fn v0(&self) -> (r: Vec3)
        ensures
            r == self@.v0,
    {
        self.v0
    }

    /// The second corner.
    pub fn v1(&self) -> (r: Vec3)
        ensures
            r == self@.v1,
    {
        self.v1
    }

    /// The third corner.
    pub fn v2(&self) -> (r: Vec3)
        ensures
            r == self@.v2,
    {
        self.v2
    }

    /// The unit normal.
    pub fn normal(&self) -> (r: Vec3)
        ensures
            r == self@.normal,
    {
        self.normal
    }
}

/// Whether `cast` finds that the ray misses each of the first `upto`
/// triangles.
pub open spec fn misses<F: Fn(&Ray, &Triangle) -> Option<Vec3>>(
    ray: &Ray,
    triangles: Seq<Triangle>,
    cast: F,
    upto: int,
) -> bool {
    forall|j: int| 0 <= j < upto ==> call_ensures(cast, (ray, &#[trigger] triangles[j]), None)
}

/// Where the ray meets the first of the triangles that `cast` finds it to
/// meet; nowhere if it finds none.
pub fn first_hit<F: Fn(&Ray, &Triangle) -> Option<Vec3>>(
    ray: &Ray,
    triangles: &[Triangle],
    cast: &F,
) -> (r: Option<Vec3>)
    requires
        forall|a: &Ray, b: &Triangle| call_requires(*cast, (a, b)),
    ensures
        match r {
            Some(point) => exists|k: int|
                0 <= k < triangles@.len() && misses(ray, triangles@, *cast, k) && call_ensures(
                    *cast,
                    (ray, &#[trigger] triangles@[k]),
                    Some(point),
                ),
            None => misses(ray, triangles@, *cast, triangles@.len() as int),
        },
{
    let mut k: usize = 0;
    while k < triangles.len()
        invariant
            forall|a: &Ray, b: &Triangle| call_requires(*cast, (a, b)),
            k <= triangles@.len(),
            misses(ray, triangles@, *cast, k as int),
        decreases triangles@.len() - k,
    {
        let hit = cast(ray, &triangles[k]);
        if hit.is_some() {
            return hit;
        }
        k += 1;
    }
    None
}

/// Whether `indices` lists whole triangles over `vertices`: three indices
/// to a triangle, each of them the index of a vertex.
pub open spec fn is_triangle_list(vertices: Seq<Vertex>, indices: Seq<u32>) -> bool {
    &&& indices.len() % 3 == 0
    &&& forall|i: int| 0 <= i < indices.len() ==> (#[trigger] indices[i]) < vertices.len()
}

/// Whether `indices` lists whole triangles over `vertices`.
pub fn check_triangle_list(vertices: &[Vertex], indices: &[u32]) -> (r: bool)
    ensures
        r == is_triangle_list(vertices@, indices@),
{
    if indices.len() % 3 != 0 {
        return false;
    }
    let mut i: usize = 0;
    while i < indices.len()
        invariant
            i <= indices@.len(),
            forall|k: int| 0 <= k < i ==> (#[trigger] indices@[k]) < vertices@.len(),
        decreases indices@.len() - i,
    {
        if indices[i] as usize >= vertices.len() {
            return false;
        }
        i += 1;
    }
    true
}

/// The triangles of an indexed mesh: triangle `t` has the vertices that
/// indices `3t`, `3t + 1` and `3t + 2` name as its corners, in that order.
pub fn mesh_to_triangles(vertices: &[Vertex], indices: &[u32]) -> (r: Vec<Triangle>)
    requires
        is_triangle_list(vertices@, indices@),
    ensures
        r@.len() == indices@.len() / 3,
        forall|t: int|
            0 <= t < r@.len() ==> (#[trigger] r@[t])@ == Triangle::spec_new(
                vertices@[indices@[3 * t] as int].position,
                vertices@[indices@[3 * t + 1] as int].position,
                vertices@[indices@[3 * t + 2] as int].position,
            ),
{
    let mut result: Vec<Triangle> = Vec::new();
    let mut i: usize = 0;
    while i < indices.len()
        invariant
            is_triangle_list(vertices@, indices@),
            i <= indices@.len(),
            i % 3 == 0,
            result@.len() == i / 3,
            forall|t: int|
                0 <= t < result@.len() ==> (#[trigger] result@[t])@ == Triangle::spec_new(
                    vertices@[indices@[3 * t] as int].position,
                    vertices@[indices@[3 * t + 1] as int].position,
                    vertices@[indices@[3 * t + 2] as int].position,
                ),
        decreases indices@.len() - i,
    {
        result.push(
            Triangle::new(
                vertices[indices[i] as usize].position,
                vertices[indices[i + 1] as usize].position,
                vertices[indices[i + 2] as usize].position,
            ),
        );
        i += 3;
    }
    result
}

} // verus!
