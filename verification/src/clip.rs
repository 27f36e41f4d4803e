//! A clip: the transform tracks of an animation, the stretch of time they
//! cover, and whether playback loops over it.

use crate::glam_transform::Transform;
use crate::pose::{Pose, PoseView};
use crate::time::Time;
use crate::track::Track;
use crate::transform_track::TransformTrack;
use glam::{Quat, Vec3};
use vstd::prelude::*;

verus! {

/// The earliest start among the first `upto` tracks that have a frame.
pub open spec fn spec_first_start(tracks: Seq<TransformTrack>, upto: int) -> Option<Time>
    decreases upto,
{
    if upto <= 0 {
        None
    } else {
        Time::spec_earlier(spec_first_start(tracks, upto - 1), tracks[upto - 1].spec_start_time())
    }
}

/// The latest end among the first `upto` tracks that have a frame.
pub open spec fn spec_last_end(tracks: Seq<TransformTrack>, upto: int) -> Option<Time>
    decreases upto,
{
    if upto <= 0 {
        None
    } else {
        Time::spec_later(spec_last_end(tracks, upto - 1), tracks[upto - 1].spec_end_time())
    }
}

/// The index of the first track from `from` on that animates `joint`; the
/// number of tracks if there is none.
pub open spec fn spec_track_index(tracks: Seq<TransformTrack>, joint: u32, from: int) -> int
    decreases tracks.len() - from,
{
    if from < 0 || from >= tracks.len() {
        tracks.len() as int
    } else if tracks[from].id == joint {
        from
    } else {
        spec_track_index(tracks, joint, from + 1)
    }
}

/// Whether track `k` leads from `steps[k]` to `steps[k + 1]`: it reads its
/// joint in the first and replaces that joint, and nothing else, in the
/// second.
pub open spec fn sampled_step<V, Q>(
    tracks: Seq<TransformTrack>,
    steps: Seq<Seq<Transform>>,
    k: int,
    t: Time,
    looping: bool,
    sample_vec3: V,
    sample_quat: Q,
) -> bool where
    V: Fn(&Track<Vec3>, Time, bool) -> Vec3,
    Q: Fn(&Track<Quat>, Time, bool) -> Quat,
 {
    let joint = tracks[k].id as int;
    &&& 0 <= joint < steps[k].len()
    &&& tracks[k].sampled(
        steps[k][joint],
        t,
        looping,
        sample_vec3,
        sample_quat,
        steps[k + 1][joint],
    )
    &&& steps[k + 1] == steps[k].update(joint, steps[k + 1][joint])
}

/// Whether `steps` are the joints of a pose while the tracks are sampled
/// into it one after another: each track reads its joint as the tracks
/// before it left it, and replaces that joint and nothing else.
pub open spec fn sampled_in_turn<V, Q>(
    tracks: Seq<TransformTrack>,
    steps: Seq<Seq<Transform>>,
    t: Time,
    looping: bool,
    sample_vec3: V,
    sample_quat: Q,
) -> bool where
    V: Fn(&Track<Vec3>, Time, bool) -> Vec3,
    Q: Fn(&Track<Quat>, Time, bool) -> Quat,
 {
    &&& steps.len() == tracks.len() + 1
    &&& forall|k: int|
        0 <= k < tracks.len() ==> #[trigger] sampled_step(
            tracks,
            steps,
            k,
            t,
            looping,
            sample_vec3,
            sample_quat,
        )
}

/// What a clip holds.
pub struct ClipView {
    pub tracks: Seq<TransformTrack>,
    pub name: Seq<char>,
    pub start_time: Time,
    pub end_time: Time,
    pub looping: bool,
}

/// An animation. No two tracks animate the same joint when the clip is
/// filled through [`Clip::transform_track`].
#[derive(Clone)]
pub struct Clip {
    tracks: Vec<TransformTrack>,
    pub name: String,
    pub start_time: Time,
    end_time: Time,
    pub looping: bool,
}

impl View for Clip {
    type V = ClipView;

    closed spec fn view(&self) -> ClipView {
        ClipView {
            tracks: self.tracks@,
            name: self.name@,
            start_time: self.start_time,
            end_time: self.end_time,
            looping: self.looping,
        }
    }
}

impl Clip {
    /// Whether the clip covers a stretch of time.
    pub open spec fn has_range(&self) -> bool {
        self@.start_time@ < self@.end_time@
    }

    /// Whether `r` is the instant of the clip that playback time `in_time`
    /// stands for, with `fold` to bring a playback time into a stretch of
    /// time. On a looping clip that is what `fold` makes of `in_time` and
    /// the clip's start and end, or zero where the clip covers no stretch of
    /// time; else it is `in_time` held to the clip's range.
    pub open spec fn adjusted<W: Fn(Time, Time, Time) -> Time>(
        &self,
        in_time: Time,
        fold: W,
        r: Time,
    ) -> bool {
        if self@.looping {
            if self.has_range() {
                call_ensures(fold, (in_time, self@.start_time, self@.end_time), r)
            } else {
                r == Time::spec_zero()
            }
        } else {
            r == Time::spec_clamp(in_time, self@.start_time, self@.end_time)
        }
    }

    /// Whether sampling the clip at `time` into a pose that holds `before`
    /// leaves `after` in it and returns `r`.
    ///
    /// A clip whose start and end coincide changes nothing and returns zero.
    /// Any other returns the instant that `time` stands for and samples its
    /// tracks into the pose one after another. The hierarchy stays.
    pub open spec fn samples_into<W, V, Q>(
        &self,
        before: PoseView,
        time: Time,
        fold: W,
        sample_vec3: V,
        sample_quat: Q,
        r: Time,
        after: PoseView,
    ) -> bool where
        W: Fn(Time, Time, Time) -> Time,
        V: Fn(&Track<Vec3>, Time, bool) -> Vec3,
        Q: Fn(&Track<Quat>, Time, bool) -> Quat,
     {
        &&& after.parents == before.parents
        &&& if self@.start_time@ == self@.end_time@ {
            r == Time::spec_zero() && after == before
        } else {
            &&& self.adjusted(time, fold, r)
            &&& exists|steps: Seq<Seq<Transform>>|
                {
                    &&& #[trigger] sampled_in_turn(
                        self@.tracks,
                        steps,
                        r,
                        self@.looping,
                        sample_vec3,
                        sample_quat,
                    )
                    &&& steps[0] == before.joints
                    &&& steps[self@.tracks.len() as int] == after.joints
                }
        }
    }

    /// An empty looping clip named `name`, or "No name given".
    pub fn new(name: Option<&str>) -> (r: Self)
        ensures
            r@.tracks.len() == 0,
            r@.name == (match name {
                Some(n) => n@,
                None => "No name given"@,
            }),
            r@.start_time == Time::spec_zero(),
            r@.end_time == Time::spec_zero(),
            r@.looping,
    {
        Self {
            tracks: Vec::new(),
            name: name.unwrap_or("No name given").to_owned(),
            start_time: Time::zero(),
            end_time: Time::zero(),
            looping: true,
        }
    }

    /// The earliest instant that the clip covers.
    pub fn start_time(&self) -> (r: Time)
        ensures
            r == self@.start_time,
    {
        self.start_time
    }

    /// The latest instant that the clip covers.
    pub fn end_time(&self) -> (r: Time)
        ensures
            r == self@.end_time,
    {
        self.end_time
    }

    /// Whether playback starts over at the end.
    pub fn looping(&self) -> (r: bool)
        ensures
            r == self@.looping,
    {
        self.looping
    }

    /// The tracks, in the order in which they were added.
    pub fn tracks(&self) -> (r: &Vec<TransformTrack>)
        ensures
            r@ == self@.tracks,
    {
        &self.tracks
    }

    /// Whether every track animates one of the first `joints` joints.
    pub open spec fn spec_animates_within(&self, joints: int) -> bool {
        forall|k: int| 0 <= k < self@.tracks.len() ==> (#[trigger] self@.tracks[k]).id < joints
    }

    /// Whether every track animates one of the first `joints` joints, as a
    /// pose of that many joints has them.
    pub fn animates_within(&self, joints: usize) -> (r: bool)
        ensures
            r == self.spec_animates_within(joints as int),
    {
        let mut k: usize = 0;
        while k < self.tracks.len()
            invariant
                k <= self.tracks@.len(),
                forall|i: int| 0 <= i < k ==> (#[trigger] self.tracks@[i]).id < joints,
            decreases self.tracks@.len() - k,
        {
            if self.tracks[k].id as usize >= joints {
                return false;
            }
            k += 1;
        }
        true
    }

    /// The range that a playback time is folded into before a looping clip
    /// is sampled, where the clip covers a stretch of time.
    pub fn loop_range(&self) -> (r: Option<(Time, Time)>)
        ensures
            r == (if self.has_range() {
                Some((self@.start_time, self@.end_time))
            } else {
                None
            }),
    {
        if self.start_time.lt(self.end_time) {
            Some((self.start_time, self.end_time))
        } else {
            None
        }
    }

    /// The instant of the clip that playback time `in_time` stands for (see
    /// [`Clip::adjusted`]).
    pub fn adjust_time_to_fit_range<W: Fn(Time, Time, Time) -> Time>(
        &self,
        in_time: Time,
        fold: &W,
    ) -> (r: Time)
        requires
            forall|a: Time, b: Time, c: Time| call_requires(*fold, (a, b, c)),
        ensures
            self.adjusted(in_time, *fold, r),
    {
        if self.looping {
            if self.end_time.le(self.start_time) {
                return Time::zero();
            }
            fold(in_time, self.start_time, self.end_time)
        } else {
            in_time.clamp(self.start_time, self.end_time)
        }
    }

    /// Samples every track at playback time `time` into `out_pose` and
    /// returns the instant that was sampled, for the caller to go on from.
    /// Each track takes its joint's transform in `out_pose` as the base, so
    /// that what it does not animate stays. A clip whose start and end
    /// coincide changes nothing and returns zero.
    ///
    /// `fold` brings a playback time into a stretch of time; the samplers
    /// evaluate a track at an instant.
    pub fn sample<W, V, Q>(
        &self,
        out_pose: &mut Pose,
        time: Time,
        fold: &W,
        sample_vec3: &V,
        sample_quat: &Q,
    ) -> (r: Time) where
        W: Fn(Time, Time, Time) -> Time,
        V: Fn(&Track<Vec3>, Time, bool) -> Vec3,
        Q: Fn(&Track<Quat>, Time, bool) -> Quat,

        requires
            self@.start_time@ != self@.end_time@ ==> self.spec_animates_within(
                old(out_pose)@.joints.len() as int,
            ),
            forall|a: Time, b: Time, c: Time| call_requires(*fold, (a, b, c)),
            forall|track: &Track<Vec3>, at: Time, l: bool|
                call_requires(*sample_vec3, (track, at, l)),
            forall|track: &Track<Quat>, at: Time, l: bool|
                call_requires(*sample_quat, (track, at, l)),
        ensures
            self.samples_into(
                old(out_pose)@,
                time,
                *fold,
                *sample_vec3,
                *sample_quat,
                r,
                final(out_pose)@,
            ),
    {
        if self.start_time.same(self.end_time) {
            return Time::zero();
        }
        let time = self.adjust_time_to_fit_range(time, fold);
        let ghost mut steps: Seq<Seq<Transform>> = seq![out_pose@.joints];
        let n = self.tracks.len();
        let mut k: usize = 0;
        assert(self@.tracks == self.tracks@);
        while k < n
            invariant
                n == self@.tracks.len(),
                self@.tracks == self.tracks@,
                k <= n,
                out_pose@.parents == old(out_pose)@.parents,
                out_pose@.joints.len() == old(out_pose)@.joints.len(),
                forall|i: int|
                    0 <= i < n ==> (#[trigger] self@.tracks[i]).id < out_pose@.joints.len(),
                forall|track: &Track<Vec3>, at: Time, l: bool|
                    call_requires(*sample_vec3, (track, at, l)),
                forall|track: &Track<Quat>, at: Time, l: bool|
                    call_requires(*sample_quat, (track, at, l)),
                steps.len() == k + 1,
                steps[0] == old(out_pose)@.joints,
                steps[k as int] == out_pose@.joints,
                forall|i: int|
                    0 <= i < k ==> #[trigger] sampled_step(
                        self@.tracks,
                        steps,
                        i,
                        time,
                        self@.looping,
                        *sample_vec3,
                        *sample_quat,
                    ),
            decreases n - k,
        {
            let track = &self.tracks[k];
            assert(*track == self@.tracks[k as int]);
            let joint = track.id as usize;
            let local = *out_pose.local_transform(joint);
            let animated = track.sample(local, time, self.looping, sample_vec3, sample_quat);
            let ghost before = steps;
            out_pose.set_local_transform(joint, animated);
            proof {
                steps = steps.push(out_pose@.joints);
                assert(steps[k as int] == before[k as int]);
                assert(steps[k + 1] == before[k as int].update(joint as int, animated));
                assert(steps[k + 1][joint as int] == animated);
                assert forall|i: int| 0 <= i < k + 1 implies #[trigger] sampled_step(
                    self@.tracks,
                    steps,
                    i,
                    time,
                    self@.looping,
                    *sample_vec3,
                    *sample_quat,
                ) by {
                    if i < k {
                        assert(sampled_step(
                            self@.tracks,
                            before,
                            i,
                            time,
                            self@.looping,
                            *sample_vec3,
                            *sample_quat,
                        ));
                        assert(steps[i] == before[i]);
                        assert(steps[i + 1] == before[i + 1]);
                    }
                }
            }
            k += 1;
        }
        proof {
            assert(sampled_in_turn(
                self@.tracks,
                steps,
                time,
                self@.looping,
                *sample_vec3,
                *sample_quat,
            ));
        }
        time
    }

    /// Sets the clip's range to reach from the earliest start to the latest
    /// end among the tracks that have a frame; from zero to zero where no
    /// track has one.
    pub fn recalculate_duration(&mut self)
        ensures
            final(self)@.start_time == (match spec_first_start(
                old(self)@.tracks,
                old(self)@.tracks.len() as int,
            ) {
                Some(s) => s,
                None => Time::spec_zero(),
            }),
            final(self)@.end_time == (match spec_last_end(
                old(self)@.tracks,
                old(self)@.tracks.len() as int,
            ) {
                Some(e) => e,
                None => Time::spec_zero(),
            }),
            final(self)@.tracks == old(self)@.tracks,
            final(self)@.name == old(self)@.name,
            final(self)@.looping == old(self)@.looping,
    {
        let n = self.tracks.len();
        let mut start: Option<Time> = None;
        let mut end: Option<Time> = None;
        let mut k: usize = 0;
        while k < n
            invariant
                n == self.tracks@.len(),
                k <= n,
                start == spec_first_start(self.tracks@, k as int),
                end == spec_last_end(self.tracks@, k as int),
            decreases n - k,
        {
            start = Time::earlier(start, self.tracks[k].start_time());
            end = Time::later(end, self.tracks[k].end_time());
            k += 1;
        }
        self.start_time = match start {
            Some(s) => s,
            None => Time::zero(),
        };
        self.end_time = match end {
            Some(e) => e,
            None => Time::zero(),
        };
    }

    /// The track that animates `joint`: the first such track if there is
    /// one, else a new empty track, appended to the clip.
    pub fn transform_track(&mut self, joint: u32) -> (r: &mut TransformTrack)
        ensures
            ({
                let idx = spec_track_index(old(self)@.tracks, joint, 0);
                if idx < old(self)@.tracks.len() {
                    &&& *r == old(self)@.tracks[idx]
                    &&& final(self)@.tracks == old(self)@.tracks.update(idx, *final(r))
                } else {
                    &&& r.id == joint
                    &&& r.position.frames@.len() == 0
                    &&& r.rotation.frames@.len() == 0
                    &&& r.scale.frames@.len() == 0
                    &&& final(self)@.tracks == old(self)@.tracks.push(*final(r))
                }
            }),
            final(self)@.name == old(self)@.name,
            final(self)@.start_time == old(self)@.start_time,
            final(self)@.end_time == old(self)@.end_time,
            final(self)@.looping == old(self)@.looping,
    {
        let n = self.tracks.len();
        let mut idx: usize = 0;
        while idx < n
            invariant
                n == self.tracks@.len(),
                idx <= n,
                spec_track_index(self.tracks@, joint, 0) == spec_track_index(
                    self.tracks@,
                    joint,
                    idx as int,
                ),
            ensures
                idx <= n,
                idx == spec_track_index(self.tracks@, joint, 0),
            decreases n - idx,
        {
            if self.tracks[idx].id == joint {
                break ;
            }
            idx += 1;
        }
        if idx == n {
            self.tracks.push(TransformTrack::new(joint));
        }
        &mut self.tracks[idx]
    }

    /// Appends `track` to the clip.
    pub fn add_track(&mut self, track: TransformTrack)
        ensures
            final(self)@.tracks == old(self)@.tracks.push(track),
            final(self)@.name == old(self)@.name,
            final(self)@.start_time == old(self)@.start_time,
            final(self)@.end_time == old(self)@.end_time,
            final(self)@.looping == old(self)@.looping,
    {
        self.tracks.push(track);
    }
}

/// Whether no two tracks animate the same joint.
pub open spec fn distinct_joints(tracks: Seq<TransformTrack>) -> bool {
    forall|i: int, j: int|
        0 <= i < j < tracks.len() ==> (#[trigger] tracks[i]).id != (#[trigger] tracks[j]).id
}

/// While tracks of distinct joints are sampled in turn, a joint stays as it
/// was until its track is sampled, and as its track left it from then on.
pub proof fn lemma_sampled_steps<V, Q>(
    tracks: Seq<TransformTrack>,
    steps: Seq<Seq<Transform>>,
    t: Time,
    looping: bool,
    sample_vec3: V,
    sample_quat: Q,
    m: int,
) where V: Fn(&Track<Vec3>, Time, bool) -> Vec3, Q: Fn(&Track<Quat>, Time, bool) -> Quat
    requires
        sampled_in_turn(tracks, steps, t, looping, sample_vec3, sample_quat),
        distinct_joints(tracks),
        0 <= m <= tracks.len(),
    ensures
        forall|k: int| 0 <= k <= m ==> (#[trigger] steps[k]).len() == steps[0].len(),
        forall|k: int| 0 <= k < m ==> 0 <= (#[trigger] tracks[k]).id < steps[0].len(),
        forall|k: int|
            0 <= k < m ==> steps[m][(#[trigger] tracks[k]).id as int] == steps[k
                + 1][tracks[k].id as int],
        forall|joint: int|
            0 <= joint < steps[0].len() && (forall|k: int|
                0 <= k < m ==> (#[trigger] tracks[k]).id != joint) ==> #[trigger] steps[m][joint]
                == steps[0][joint],
    decreases m,
{
    if m > 0 {
        lemma_sampled_steps(tracks, steps, t, looping, sample_vec3, sample_quat, m - 1);
        assert(sampled_step(tracks, steps, m - 1, t, looping, sample_vec3, sample_quat));
        let joint_m = tracks[m - 1].id as int;
        assert(steps[m - 1].len() == steps[0].len());
        assert(steps[m] == steps[m - 1].update(joint_m, steps[m][joint_m]));
        assert(steps[m].len() == steps[0].len());
        assert forall|k: int| 0 <= k < m implies steps[m][(#[trigger] tracks[k]).id as int]
            == steps[k + 1][tracks[k].id as int] by {
            if k < m - 1 {
                assert(tracks[k].id != tracks[m - 1].id);
                assert(0 <= tracks[k].id < steps[0].len());
                assert(steps[m][tracks[k].id as int] == steps[m - 1][tracks[k].id as int]);
            }
        }
        assert forall|joint: int|
            0 <= joint < steps[0].len() && (forall|k: int|
                0 <= k < m ==> (#[trigger] tracks[k]).id != joint) implies #[trigger] steps[m][joint]
            == steps[0][joint] by {
            assert(tracks[m - 1].id != joint);
            assert forall|k: int| 0 <= k < m - 1 implies (#[trigger] tracks[k]).id != joint by {}
        }
    }
}

/// Sampling a clip of distinct joints gives each animated joint what its
/// track makes of the joint as it was before, and leaves every other joint
/// as it was.
pub proof fn lemma_sampled_distinct<V, Q>(
    tracks: Seq<TransformTrack>,
    steps: Seq<Seq<Transform>>,
    t: Time,
    looping: bool,
    sample_vec3: V,
    sample_quat: Q,
) where V: Fn(&Track<Vec3>, Time, bool) -> Vec3, Q: Fn(&Track<Quat>, Time, bool) -> Quat
    requires
        sampled_in_turn(tracks, steps, t, looping, sample_vec3, sample_quat),
        distinct_joints(tracks),
    ensures
        steps[tracks.len() as int].len() == steps[0].len(),
        forall|k: int| 0 <= k < tracks.len() ==> 0 <= (#[trigger] tracks[k]).id < steps[0].len(),
        forall|k: int|
            0 <= k < tracks.len() ==> (#[trigger] tracks[k]).sampled(
                steps[0][tracks[k].id as int],
                t,
                looping,
                sample_vec3,
                sample_quat,
                steps[tracks.len() as int][tracks[k].id as int],
            ),
        forall|joint: int|
            0 <= joint < steps[0].len() && (forall|k: int|
                0 <= k < tracks.len() ==> (#[trigger] tracks[k]).id != joint)
                ==> #[trigger] steps[tracks.len() as int][joint] == steps[0][joint],
{
    let n = tracks.len() as int;
    lemma_sampled_steps(tracks, steps, t, looping, sample_vec3, sample_quat, n);
    assert forall|k: int| 0 <= k < n implies (#[trigger] tracks[k]).sampled(
        steps[0][tracks[k].id as int],
        t,
        looping,
        sample_vec3,
        sample_quat,
        steps[n][tracks[k].id as int],
    ) by {
        lemma_sampled_steps(tracks, steps, t, looping, sample_vec3, sample_quat, k);
        assert(sampled_step(tracks, steps, k, t, looping, sample_vec3, sample_quat));
        assert forall|i: int| 0 <= i < k implies (#[trigger] tracks[i]).id != tracks[k].id by {}
    }
}

/// The earliest start is the start of one of the tracks, and no track starts
/// before it; there is none only where no track has a frame.
pub proof fn lemma_first_start(tracks: Seq<TransformTrack>, upto: int)
    requires
        0 <= upto <= tracks.len(),
    ensures
        match spec_first_start(tracks, upto) {
            Some(s) => {
                &&& exists|k: int| 0 <= k < upto && #[trigger] tracks[k].spec_start_time() == Some(s)
                &&& forall|j: int|
                    0 <= j < upto ==> (#[trigger] tracks[j].spec_start_time() matches Some(x)
                        ==> s@ <= x@)
            },
            None => forall|j: int| 0 <= j < upto ==> !(#[trigger] tracks[j]).spec_is_valid(),
        },
    decreases upto,
{
    if upto > 0 {
        lemma_first_start(tracks, upto - 1);
        let rest = spec_first_start(tracks, upto - 1);
        let last = tracks[upto - 1].spec_start_time();
        match (rest, last) {
            (Some(x), Some(y)) => {
                if y@ < x@ {
                    assert(tracks[upto - 1].spec_start_time() == Some(y));
                } else {
                    let k = choose|k: int|
                        0 <= k < upto - 1 && #[trigger] tracks[k].spec_start_time() == Some(x);
                    assert(tracks[k].spec_start_time() == Some(x));
                }
            },
            (Some(x), None) => {
                let k = choose|k: int|
                    0 <= k < upto - 1 && #[trigger] tracks[k].spec_start_time() == Some(x);
                assert(tracks[k].spec_start_time() == Some(x));
            },
            (None, Some(y)) => {
                assert(tracks[upto - 1].spec_start_time() == Some(y));
            },
            (None, None) => {},
        }
    }
}

/// The latest end is the end of one of the tracks, and no track ends after
/// it; there is none only where no track has a frame.
pub proof fn lemma_last_end(tracks: Seq<TransformTrack>, upto: int)
    requires
        0 <= upto <= tracks.len(),
    ensures
        match spec_last_end(tracks, upto) {
            Some(e) => {
                &&& exists|k: int| 0 <= k < upto && #[trigger] tracks[k].spec_end_time() == Some(e)
                &&& forall|j: int|
                    0 <= j < upto ==> (#[trigger] tracks[j].spec_end_time() matches Some(x) ==> x@
                        <= e@)
            },
            None => forall|j: int| 0 <= j < upto ==> !(#[trigger] tracks[j]).spec_is_valid(),
        },
    decreases upto,
{
    if upto > 0 {
        lemma_last_end(tracks, upto - 1);
        let rest = spec_last_end(tracks, upto - 1);
        let last = tracks[upto - 1].spec_end_time();
        match (rest, last) {
            (Some(x), Some(y)) => {
                if y@ > x@ {
                    assert(tracks[upto - 1].spec_end_time() == Some(y));
                } else {
                    let k = choose|k: int|
                        0 <= k < upto - 1 && #[trigger] tracks[k].spec_end_time() == Some(x);
                    assert(tracks[k].spec_end_time() == Some(x));
                }
            },
            (Some(x), None) => {
                let k = choose|k: int|
                    0 <= k < upto - 1 && #[trigger] tracks[k].spec_end_time() == Some(x);
                assert(tracks[k].spec_end_time() == Some(x));
            },
            (None, Some(y)) => {
                assert(tracks[upto - 1].spec_end_time() == Some(y));
            },
            (None, None) => {},
        }
    }
}

} // verus!
