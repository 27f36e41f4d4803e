//! Skeletal animation: keyframe tracks, clips, joint hierarchies, a chain
//! solver for inverse kinematics, and the legs that use it.
//!
//! Every function here is verified. Vectors, rotations and matrices are
//! `glam` values that the library carries and combines through `glam`'s own
//! operations without looking inside them. Arithmetic on single real numbers
//! is the caller's: times are held as integer keys that order them, the
//! values of tracks, weights and lengths are of types that the caller
//! chooses, and what is computed from them (a time folded into a loop, a
//! value between two keyframes, a blend, a distance) is handed in as a
//! function, of which a contract says where and on what the library calls
//! it.

pub mod clip;
pub mod fabrik_solver;
pub mod frame;
pub mod glam_ops;
pub mod glam_transform;
pub mod ik_leg;
pub mod interpolation;
pub mod loader;
pub mod pose;
pub mod resources;
pub mod skeleton;
pub mod time;
pub mod track;
pub mod track_helpers;
pub mod transform_track;
pub mod triangle_ray;
pub mod vector4;
