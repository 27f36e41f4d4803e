//! The three tracks that animate one joint.

use crate::glam_transform::Transform;
use crate::time::Time;
use crate::track::Track;
use glam::{Quat, Vec3};
use vstd::prelude::*;

verus! {

/// The position, rotation and scale tracks of joint `id`.
#[derive(Clone)]
pub struct TransformTrack {
    pub id: u32,
    pub position: Track<Vec3>,
    pub rotation: Track<Quat>,
    pub scale: Track<Vec3>,
}

impl TransformTrack {
    /// Whether any of the three tracks has a frame.
    pub open spec fn spec_is_valid(&self) -> bool {
        self.position.frames@.len() > 0 || self.rotation.frames@.len() > 0
            || self.scale.frames@.len() > 0
    }

    /// The first frame's time of a track, if it has a frame.
    pub open spec fn first_time<T>(track: Track<T>) -> Option<Time> {
        if track.frames@.len() == 0 {
            None
        } else {
            Some(track.frames@[0].time)
        }
    }

    /// The last frame's time of a track, if it has a frame.
    pub open spec fn last_time<T>(track: Track<T>) -> Option<Time> {
        if track.frames@.len() == 0 {
            None
        } else {
            Some(track.frames@[track.frames@.len() - 1].time)
        }
    }

    /// The earliest start among the tracks that have a frame.
    pub open spec fn spec_start_time(&self) -> Option<Time> {
        Time::spec_earlier(
            Time::spec_earlier(Self::first_time(self.position), Self::first_time(self.rotation)),
            Self::first_time(self.scale),
        )
    }

    /// The earliest end among the tracks that have a frame: the instant up
    /// to which all of them are animated.
    pub open spec fn spec_end_time(&self) -> Option<Time> {
        Time::spec_earlier(
            Time::spec_earlier(Self::last_time(self.position), Self::last_time(self.rotation)),
            Self::last_time(self.scale),
        )
    }

    /// Whether `r` is a sample of this joint at `t` on top of `ref_tf`: each
    /// component whose track has at least two frames is what the sampler
    /// makes of that track, and each other component is `ref_tf`'s.
    pub open spec fn sampled<V, Q>(
        &self,
        ref_tf: Transform,
        t: Time,
        looping: bool,
        sample_vec3: V,
        sample_quat: Q,
        r: Transform,
    ) -> bool where
        V: Fn(&Track<Vec3>, Time, bool) -> Vec3,
        Q: Fn(&Track<Quat>, Time, bool) -> Quat,
     {
        &&& if self.position.frames@.len() > 1 {
            call_ensures(sample_vec3, (&self.position, t, looping), r.translation)
        } else {
            r.translation == ref_tf.translation
        }
        &&& if self.rotation.frames@.len() > 1 {
            call_ensures(sample_quat, (&self.rotation, t, looping), r.rotation)
        } else {
            r.rotation == ref_tf.rotation
        }
        &&& if self.scale.frames@.len() > 1 {
            call_ensures(sample_vec3, (&self.scale, t, looping), r.scale)
        } else {
            r.scale == ref_tf.scale
        }
    }

    /// The tracks of joint `id`, all empty.
    pub fn new(id: u32) -> (r: Self)
        ensures
            r.id == id,
            r.position.frames@.len() == 0,
            r.rotation.frames@.len() == 0,
            r.scale.frames@.len() == 0,
            !r.spec_is_valid(),
    {
        Self { id, position: Track::new(), rotation: Track::new(), scale: Track::new() }
    }

    /// Whether any of the three tracks has a frame.
    pub fn is_valid(&self) -> (r: bool)
        ensures
            r == self.spec_is_valid(),
    {
        self.position.len() > 0 || self.rotation.len() > 0 || self.scale.len() > 0
    }

    /// The earliest start among the tracks that have a frame.
    pub fn start_time(&self) -> (r: Option<Time>)
        ensures
            r == self.spec_start_time(),
            r.is_some() == self.spec_is_valid(),
    {
        Time::earlier(
            Time::earlier(self.position.start_time(), self.rotation.start_time()),
            self.scale.start_time(),
        )
    }

    /// The earliest end among the tracks that have a frame.
    pub fn end_time(&self) -> (r: Option<Time>)
        ensures
            r == self.spec_end_time(),
            r.is_some() == self.spec_is_valid(),
    {
        Time::earlier(
            Time::earlier(self.position.end_time(), self.rotation.end_time()),
            self.scale.end_time(),
        )
    }

    /// The joint's transform at `t`, on top of `ref_tf`. A component whose
    /// track has fewer than two frames is not animated and stays as it is in
    /// `ref_tf`. The samplers evaluate a track at an instant.
    pub fn sample<V, Q>(
        &self,
        ref_tf: Transform,
        t: Time,
        looping: bool,
        sample_vec3: &V,
        sample_quat: &Q,
    ) -> (r: Transform) where
        V: Fn(&Track<Vec3>, Time, bool) -> Vec3,
        Q: Fn(&Track<Quat>, Time, bool) -> Quat,

        requires
            forall|track: &Track<Vec3>, at: Time, l: bool|
                call_requires(*sample_vec3, (track, at, l)),
            forall|track: &Track<Quat>, at: Time, l: bool|
                call_requires(*sample_quat, (track, at, l)),
        ensures
            self.sampled(ref_tf, t, looping, *sample_vec3, *sample_quat, r),
    {
        let mut result = ref_tf;
        if self.position.len() > 1 {
            result.translation = sample_vec3(&self.position, t, looping);
        }
        if self.rotation.len() > 1 {
            result.rotation = sample_quat(&self.rotation, t, looping);
        }
        if self.scale.len() > 1 {
            result.scale = sample_vec3(&self.scale, t, looping);
        }
        result
    }
}

} // verus!
