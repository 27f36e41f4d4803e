//! A keyframe track: the frames of one animated channel, and which of them
//! apply at an instant.
//!
//! Finding the frames is done here. Evaluating the value between two frames
//! is arithmetic on the channel's values and is the caller's part, as is
//! folding an instant into a looping track's range.

use crate::frame::Frame;
use crate::interpolation::Interpolation;
use crate::time::Time;
use vstd::prelude::*;

verus! {

/// What sampling a track at an instant comes to.
#[derive(Clone, Copy, Debug)]
pub enum Sample {
    /// No frame applies: the channel's default value.
    Rest,
    /// The value of frame `frame`, as it stands.
    Hold { frame: usize },
    /// The straight blend of frames `from` and `to`, as far along as `at`
    /// lies between their times.
    Linear { from: usize, to: usize, at: Time },
    /// The Hermite curve from frame `from` to frame `to`, leaving with the
    /// first's out-tangent and arriving with the second's in-tangent, each
    /// times the seconds between the two frames; evaluated as far along as
    /// `at` lies between their times.
    Cubic { from: usize, to: usize, at: Time },
}

/// The frames of one channel, in ascending order of time, and the way to
/// fill the time between them.
#[derive(Debug, Clone)]
pub struct Track<T> {
    pub frames: Vec<Frame<T>>,
    pub interp: Interpolation,
}

impl<T> Track<T> {
    /// The track's way of filling the time between frames.
    pub open spec fn spec_interpolation(&self) -> Interpolation {
        self.interp
    }

    /// The time of frame `i`, as a key.
    pub open spec fn time_at(&self, i: int) -> int {
        self.frames@[i].time@
    }

    /// Whether the frames are in ascending order of time.
    pub open spec fn sorted(&self) -> bool {
        forall|i: int, j: int|
            0 <= i <= j < self.frames@.len() ==> self.time_at(i) <= self.time_at(j)
    }

    /// Whether the frames are in ascending order of time and no two share
    /// an instant.
    pub open spec fn strictly_sorted(&self) -> bool {
        forall|i: int, j: int|
            0 <= i < j < self.frames@.len() ==> self.time_at(i) < self.time_at(j)
    }

    /// The last of the first `upto` frames that is not later than `t`.
    pub open spec fn spec_latest(&self, t: int, upto: int) -> Option<int>
        decreases upto,
    {
        if upto <= 0 {
            None
        } else if self.time_at(upto - 1) <= t {
            Some(upto - 1)
        } else {
            self.spec_latest(t, upto - 1)
        }
    }

    /// The frame that governs instant `t`.
    ///
    /// A track of fewer than two frames has none. On a track that does not
    /// loop, every instant up to the first frame belongs to the first frame,
    /// and every instant from the frame before the last on belongs to that
    /// frame. Any other instant belongs to the last frame that is not later
    /// than it. For a looping track `t` is an instant folded into the
    /// track's range.
    pub open spec fn spec_frame_index(&self, t: Time, looping: bool) -> Option<int> {
        let n = self.frames@.len() as int;
        if n < 2 {
            None
        } else if !looping && t@ <= self.time_at(0) {
            Some(0)
        } else if !looping && t@ >= self.time_at(n - 2) {
            Some(n - 2)
        } else {
            self.spec_latest(t@, n)
        }
    }

    /// Whether the track covers a stretch of time: at least two frames, the
    /// last later than the first.
    pub open spec fn has_range(&self) -> bool {
        self.frames@.len() >= 2 && self.time_at(0) < self.time_at(self.frames@.len() - 1)
    }

    /// The instant on the track that `t` stands for: zero for a track that
    /// covers no stretch of time; `t` itself on a looping track, where the
    /// caller has folded it; else `t` held to the track's range.
    pub open spec fn spec_track_time(&self, t: Time, looping: bool) -> Time {
        let n = self.frames@.len() as int;
        if n == 0 || self.time_at(n - 1) <= self.time_at(0) {
            Time::spec_zero()
        } else if looping {
            t
        } else {
            Time::spec_clamp(t, self.frames@[0].time, self.frames@[n - 1].time)
        }
    }

    /// What sampling the track at `t` comes to.
    ///
    /// A looping track that covers no stretch of time rests. Otherwise the
    /// governing frame decides: a constant track holds its value; a linear
    /// or cubic track runs from it to the next frame, unless it is the last
    /// frame or the next frame is not later, in which case the track rests.
    pub open spec fn spec_sample(&self, t: Time, looping: bool) -> Sample {
        let n = self.frames@.len() as int;
        if looping && !self.has_range() {
            Sample::Rest
        } else {
            match self.spec_frame_index(t, looping) {
                None => Sample::Rest,
                Some(i) => match self.spec_interpolation() {
                    Interpolation::Constant => Sample::Hold { frame: i as usize },
                    Interpolation::Linear => if i < n - 1 && self.time_at(i) < self.time_at(i + 1) {
                        Sample::Linear {
                            from: i as usize,
                            to: (i + 1) as usize,
                            at: self.spec_track_time(t, looping),
                        }
                    } else {
                        Sample::Rest
                    },
                    Interpolation::Cubic => if i < n - 1 && self.time_at(i) < self.time_at(i + 1) {
                        Sample::Cubic {
                            from: i as usize,
                            to: (i + 1) as usize,
                            at: self.spec_track_time(t, looping),
                        }
                    } else {
                        Sample::Rest
                    },
                },
            }
        }
    }

    /// Whether sampling the track at playback time `t` comes to `r`, with
    /// `fold` to bring a playback time into a stretch of time.
    ///
    /// A track that does not loop is sampled at `t`. A looping track that
    /// covers no stretch of time rests. Any other looping track is sampled
    /// at what `fold` makes of `t` and the track's first and last instant.
    pub open spec fn sampled<W: Fn(Time, Time, Time) -> Time>(
        &self,
        t: Time,
        looping: bool,
        fold: W,
        r: Sample,
    ) -> bool {
        if !looping {
            r == self.spec_sample(t, false)
        } else if !self.has_range() {
            r == Sample::Rest
        } else {
            exists|folded: Time| #[trigger]
                call_ensures(
                    fold,
                    (t, self.frames@[0].time, self.frames@[self.frames@.len() - 1].time),
                    folded,
                ) && r == self.spec_sample(folded, true)
        }
    }

    /// An empty track that interpolates linearly.
    pub fn new() -> (r: Self)
        ensures
            r.frames@.len() == 0,
            r.spec_interpolation() == Interpolation::Linear,
    {
        Self { frames: Vec::new(), interp: Interpolation::Linear }
    }

    /// A track of the given frames, filled in the given way.
    pub fn new_with_args(interp: Interpolation, frames: Vec<Frame<T>>) -> (r: Self)
        ensures
            r.frames == frames,
            r.spec_interpolation() == interp,
    {
        Self { frames, interp }
    }

    /// The time of the first frame.
    pub fn start_time(&self) -> (r: Option<Time>)
        ensures
            r == (if self.frames@.len() == 0 {
                None
            } else {
                Some(self.frames@[0].time)
            }),
    {
        if self.frames.len() == 0 {
            None
        } else {
            Some(self.frames[0].time)
        }
    }

    /// The time of the last frame.
    pub fn end_time(&self) -> (r: Option<Time>)
        ensures
            r == (if self.frames@.len() == 0 {
                None
            } else {
                Some(self.frames@[self.frames@.len() - 1].time)
            }),
    {
        if self.frames.len() == 0 {
            None
        } else {
            Some(self.frames[self.frames.len() - 1].time)
        }
    }

    /// The track's way of filling the time between frames.
    pub fn interpolation(&self) -> (r: Interpolation)
        ensures
            r == self.spec_interpolation(),
    {
        self.interp
    }

    /// Sets the track's way of filling the time between frames.
    pub fn set_interpolation(&mut self, interp: Interpolation)
        ensures
            final(self).spec_interpolation() == interp,
            final(self).frames == old(self).frames,
    {
        self.interp = interp;
    }

    /// The number of frames.
    pub fn len(&self) -> (r: usize)
        ensures
            r == self.frames@.len(),
    {
        self.frames.len()
    }

    /// Frame `idx`.
    pub fn frame(&self, idx: usize) -> (r: &Frame<T>)
        requires
            idx < self.frames@.len(),
        ensures
            *r == self.frames@[idx as int],
    {
        &self.frames[idx]
    }

    /// The range that an instant is folded into before a looping track is
    /// sampled: the first and the last frame's times, where the track covers
    /// a stretch of time.
    pub fn loop_range(&self) -> (r: Option<(Time, Time)>)
        ensures
            r == (if self.has_range() {
                Some((self.frames@[0].time, self.frames@[self.frames@.len() - 1].time))
            } else {
                None
            }),
    {
        let n = self.frames.len();
        if n < 2 {
            return None;
        }
        let start = self.frames[0].time;
        let end = self.frames[n - 1].time;
        if start.lt(end) {
            Some((start, end))
        } else {
            None
        }
    }

    /// The frame that governs instant `t` (see [`Track::spec_frame_index`]).
    pub fn frame_index(&self, t: Time, looping: bool) -> (r: Option<usize>)
        ensures
            match r {
                Some(i) => self.spec_frame_index(t, looping) == Some(i as int),
                None => self.spec_frame_index(t, looping).is_none(),
            },
            r matches Some(i) ==> i < self.frames@.len(),
    {
        let n = self.frames.len();
        if n < 2 {
            return None;
        }
        if !looping {
            if t.le(self.frames[0].time) {
                return Some(0);
            }
            if self.frames[n - 2].time.le(t) {
                return Some(n - 2);
            }
        }
        let mut idx = n;
        while idx > 0
            invariant
                idx <= n,
                n == self.frames@.len(),
                self.spec_frame_index(t, looping) == self.spec_latest(t@, n as int),
                self.spec_latest(t@, n as int) == self.spec_latest(t@, idx as int),
            decreases idx,
        {
            idx -= 1;
            assert(self.spec_latest(t@, idx + 1) == if self.time_at(idx as int) <= t@ {
                Some(idx as int)
            } else {
                self.spec_latest(t@, idx as int)
            });
            if self.frames[idx].time.le(t) {
                return Some(idx);
            }
        }
        None
    }

    /// The instant on the track that `t` stands for (see
    /// [`Track::spec_track_time`]).
    pub fn track_time(&self, t: Time, looping: bool) -> (r: Time)
        ensures
            r == self.spec_track_time(t, looping),
    {
        let n = self.frames.len();
        if n == 0 {
            return Time::zero();
        }
        let start = self.frames[0].time;
        let end = self.frames[n - 1].time;
        if end.le(start) {
            Time::zero()
        } else if looping {
            t
        } else {
            t.clamp(start, end)
        }
    }

    /// What sampling the track at playback time `t` comes to. A looping
    /// track has `fold` bring `t` into the stretch of time that it covers
    /// and is sampled there; any other track is sampled at `t`.
    pub fn sample<W: Fn(Time, Time, Time) -> Time>(&self, t: Time, looping: bool, fold: &W) -> (r:
        Sample)
        requires
            forall|a: Time, b: Time, c: Time| call_requires(*fold, (a, b, c)),
        ensures
            self.sampled(t, looping, *fold, r),
    {
        if looping {
            match self.loop_range() {
                None => Sample::Rest,
                Some((start, end)) => {
                    let folded = fold(t, start, end);
                    self.sample_at(folded, true)
                },
            }
        } else {
            self.sample_at(t, false)
        }
    }

    /// What sampling the track at instant `t` of the track comes to (see
    /// [`Track::spec_sample`]). For a looping track, `t` is an instant
    /// folded into [`Track::loop_range`].
    pub fn sample_at(&self, t: Time, looping: bool) -> (r: Sample)
        ensures
            r == self.spec_sample(t, looping),
    {
        if looping && self.loop_range().is_none() {
            return Sample::Rest;
        }
        match self.frame_index(t, looping) {
            None => Sample::Rest,
            Some(this_frame) => {
                match self.interp {
                    Interpolation::Constant => Sample::Hold { frame: this_frame },
                    Interpolation::Linear => {
                        if this_frame < self.frames.len() - 1 && self.frames[this_frame].time.lt(
                            self.frames[this_frame + 1].time,
                        ) {
                            Sample::Linear {
                                from: this_frame,
                                to: this_frame + 1,
                                at: self.track_time(t, looping),
                            }
                        } else {
                            Sample::Rest
                        }
                    },
                    Interpolation::Cubic => {
                        if this_frame < self.frames.len() - 1 && self.frames[this_frame].time.lt(
                            self.frames[this_frame + 1].time,
                        ) {
                            Sample::Cubic {
                                from: this_frame,
                                to: this_frame + 1,
                                at: self.track_time(t, looping),
                            }
                        } else {
                            Sample::Rest
                        }
                    },
                }
            },
        }
    }

    /// Whether the frames are in ascending order of time.
    pub fn is_sorted(&self) -> (r: bool)
        ensures
            r == self.sorted(),
    {
        let n = self.frames.len();
        if n == 0 {
            return true;
        }
        let mut i: usize = 1;
        while i < n
            invariant
                1 <= i <= n,
                n == self.frames@.len(),
                forall|a: int, b: int| 0 <= a <= b < i ==> self.time_at(a) <= self.time_at(b),
            decreases n - i,
        {
            if self.frames[i].time.lt(self.frames[i - 1].time) {
                assert(!(self.time_at(i - 1) <= self.time_at(i as int)));
                return false;
            }
            assert forall|a: int, b: int| 0 <= a <= b < i + 1 implies self.time_at(a)
                <= self.time_at(b) by {
                if b == i && a < i {
                    assert(self.time_at(a) <= self.time_at(i - 1));
                }
            }
            i += 1;
        }
        true
    }

    /// What [`Track::spec_latest`] finds is a frame not later than `t` with
    /// only later frames behind it; it finds none only where every frame is
    /// later than `t`.
    pub proof fn lemma_latest(&self, t: int, upto: int)
        requires
            0 <= upto <= self.frames@.len(),
        ensures
            match self.spec_latest(t, upto) {
                Some(i) => {
                    &&& 0 <= i < upto
                    &&& self.time_at(i) <= t
                    &&& forall|j: int| i < j < upto ==> self.time_at(j) > t
                },
                None => forall|j: int| 0 <= j < upto ==> self.time_at(j) > t,
            },
        decreases upto,
    {
        if upto > 0 && self.time_at(upto - 1) > t {
            self.lemma_latest(t, upto - 1);
        }
    }

    /// On a track that does not loop, an instant before the first frame
    /// samples as the first frame's instant does. On one whose frames are
    /// in ascending order and that covers a stretch of time or has no more
    /// than two frames, an instant after the last frame samples as the last
    /// frame's instant does.
    pub proof fn lemma_sample_clamps(&self, t: Time)
        requires
            self.frames@.len() >= 1,
        ensures
            t@ <= self.time_at(0) ==> self.spec_sample(t, false) == self.spec_sample(
                self.frames@[0].time,
                false,
            ),
            self.sorted() && (self.has_range() || self.frames@.len() <= 2) && t@ >= self.time_at(
                self.frames@.len() - 1,
            ) ==> self.spec_sample(t, false) == self.spec_sample(
                self.frames@[self.frames@.len() - 1].time,
                false,
            ),
    {
        let n = self.frames@.len() as int;
        let start = self.frames@[0].time;
        let end = self.frames@[n - 1].time;
        if t@ == start@ {
            Time::lemma_same_key(t, start);
        }
        if t@ == end@ {
            Time::lemma_same_key(t, end);
        }
        if start@ == end@ {
            Time::lemma_same_key(start, end);
        }
        if n >= 2 && self.sorted() {
            assert(self.time_at(0) <= self.time_at(n - 2));
            assert(self.time_at(n - 2) <= self.time_at(n - 1));
        }
    }

    /// Sampling at a keyframe's own instant addresses that keyframe. On a
    /// track whose frames are strictly ascending and that does not loop: at
    /// the instant of any frame but the last, a constant track holds that
    /// frame and a linear or cubic track stands at the start of the stretch
    /// that leaves it; at the instant of the last frame, a linear or cubic
    /// track stands at the end of the stretch that arrives at it.
    pub proof fn lemma_sample_at_keyframe(&self, i: int)
        requires
            self.strictly_sorted(),
            self.frames@.len() >= 2,
            0 <= i < self.frames@.len(),
        ensures
            ({
                let n = self.frames@.len() as int;
                let at = self.frames@[i].time;
                let from = if i == n - 1 {
                    n - 2
                } else {
                    i
                };
                self.spec_sample(at, false) == (match self.spec_interpolation() {
                    Interpolation::Constant => Sample::Hold { frame: from as usize },
                    Interpolation::Linear => Sample::Linear {
                        from: from as usize,
                        to: (from + 1) as usize,
                        at,
                    },
                    Interpolation::Cubic => Sample::Cubic {
                        from: from as usize,
                        to: (from + 1) as usize,
                        at,
                    },
                })
            }),
    {
        let n = self.frames@.len() as int;
        let at = self.frames@[i].time;
        self.lemma_latest(at@, n);
        assert(self.time_at(0) < self.time_at(n - 1));
        if 0 < i {
            assert(self.time_at(0) < self.time_at(i));
        }
        if i < n - 2 {
            assert(self.time_at(i) < self.time_at(n - 2));
            assert(self.time_at(i) < self.time_at(i + 1));
            match self.spec_latest(at@, n) {
                None => {
                    assert(self.time_at(i) > at@);
                },
                Some(k) => {
                    if k < i {
                        assert(self.time_at(i) > at@);
                    }
                    if k > i {
                        assert(self.time_at(i) < self.time_at(k));
                    }
                },
            }
        } else {
            assert(self.time_at(n - 2) < self.time_at(n - 1));
            if i == n - 1 {
                assert(self.time_at(n - 2) < self.time_at(i));
            }
        }
        assert(self.time_at(0) <= self.time_at(i) <= self.time_at(n - 1)) by {
            if 0 < i {
                assert(self.time_at(0) < self.time_at(i));
            }
            if i < n - 1 {
                assert(self.time_at(i) < self.time_at(n - 1));
            }
        }
    }
}

} // verus!
