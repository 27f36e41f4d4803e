use animation::frame::Frame;
use animation::interpolation::Interpolation;
use animation::time::Time;
use animation::track::{Sample, Track};

fn at(seconds: f32) -> Time {
    Time::from_bits(seconds.to_bits()).expect("a finite instant")
}

fn secs(t: Time) -> f32 {
    f32::from_bits(t.to_bits())
}

fn scalar_track(interp: Interpolation, keys: &[(f32, f32)]) -> Track<f32> {
    let frames = keys.iter().map(|&(t, v)| Frame::new_simple(at(t), v)).collect();
    Track::new_with_args(interp, frames)
}

fn fold(t: f32, start: f32, end: f32) -> f32 {
    let duration = end - start;
    let mut t = (t - start) % duration;
    if t < 0.0 {
        t += duration;
    }
    t + start
}

fn fold_time(t: Time, start: Time, end: Time) -> Time {
    at(fold(secs(t), secs(start), secs(end)))
}

/// Evaluates a scalar track as its plan says.
fn value(track: &Track<f32>, t: f32, looping: bool) -> f32 {
    match track.sample(at(t), looping, &fold_time) {
        Sample::Rest => 0.0,
        Sample::Hold { frame } => track.frame(frame).value,
        Sample::Linear { from, to, at } => {
            let (a, b) = (track.frame(from), track.frame(to));
            let u = (secs(at) - secs(a.time)) / (secs(b.time) - secs(a.time));
            a.value + (b.value - a.value) * u
        }
        Sample::Cubic { from, to, at } => {
            let (a, b) = (track.frame(from), track.frame(to));
            let delta = secs(b.time) - secs(a.time);
            let u = (secs(at) - secs(a.time)) / delta;
            let (uu, uuu) = (u * u, u * u * u);
            let h1 = 2.0 * uuu - 3.0 * uu + 1.0;
            let h2 = -2.0 * uuu + 3.0 * uu;
            let h3 = uuu - 2.0 * uu + u;
            let h4 = uuu - uu;
            a.value * h1 + b.value * h2 + a.out_tangent * delta * h3 + b.in_tangent * delta * h4
        }
    }
}

fn plan(track: &Track<f32>, t: f32, looping: bool) -> (u8, usize, usize, f32) {
    match track.sample_at(at(t), looping) {
        Sample::Rest => (0, 0, 0, 0.0),
        Sample::Hold { frame } => (1, frame, frame, 0.0),
        Sample::Linear { from, to, at } => (2, from, to, secs(at)),
        Sample::Cubic { from, to, at } => (3, from, to, secs(at)),
    }
}

const KEYS: [(f32, f32); 4] = [(0.5, 10.0), (1.0, 20.0), (2.0, 40.0), (4.0, 0.0)];

#[test]
fn a_new_track_is_empty_and_linear() {
    let track: Track<f32> = Track::new();
    assert_eq!(track.len(), 0);
    assert_eq!(track.interpolation(), Interpolation::Linear);
    assert!(track.start_time().is_none());
    assert!(track.end_time().is_none());
    assert!(track.loop_range().is_none());
    assert!(track.is_sorted());
}

#[test]
fn frames_keep_what_they_are_given() {
    let f = Frame::new(at(0.25), 1.0f32, 2.0, 3.0);
    assert_eq!(secs(f.time), 0.25);
    assert_eq!(f.in_tangent, 1.0);
    assert_eq!(f.out_tangent, 2.0);
    assert_eq!(f.value, 3.0);
    let s = Frame::new_simple(at(0.5), 7.0f32);
    assert_eq!(secs(s.time), 0.5);
    assert_eq!(s.value, 7.0);
    assert_eq!(s.in_tangent, 0.0);
    assert_eq!(s.out_tangent, 0.0);
}

#[test]
fn track_accessors() {
    let mut track = scalar_track(Interpolation::Cubic, &KEYS);
    assert_eq!(track.len(), 4);
    assert_eq!(track.interpolation(), Interpolation::Cubic);
    assert_eq!(secs(track.start_time().unwrap()), 0.5);
    assert_eq!(secs(track.end_time().unwrap()), 4.0);
    assert_eq!(track.frame(2).value, 40.0);
    track.set_interpolation(Interpolation::Constant);
    assert_eq!(track.interpolation(), Interpolation::Constant);
    assert_eq!(track.len(), 4);
    let (s, e) = track.loop_range().unwrap();
    assert_eq!((secs(s), secs(e)), (0.5, 4.0));
}

#[test]
fn sortedness_is_checked() {
    assert!(scalar_track(Interpolation::Linear, &KEYS).is_sorted());
    assert!(scalar_track(Interpolation::Linear, &[(1.0, 0.0), (1.0, 1.0)]).is_sorted());
    assert!(!scalar_track(Interpolation::Linear, &[(1.0, 0.0), (2.0, 1.0), (1.5, 1.0)]).is_sorted());
    assert!(!scalar_track(Interpolation::Linear, &[(0.0, 0.0), (-1.0, 1.0)]).is_sorted());
}

#[test]
fn fewer_than_two_frames_have_no_governing_frame() {
    let empty = scalar_track(Interpolation::Linear, &[]);
    let single = scalar_track(Interpolation::Constant, &[(1.0, 5.0)]);
    for &looping in [false, true].iter() {
        assert_eq!(empty.frame_index(at(1.0), looping), None);
        assert_eq!(single.frame_index(at(1.0), looping), None);
        assert_eq!(plan(&empty, 1.0, looping).0, 0);
        assert_eq!(plan(&single, 1.0, looping).0, 0);
    }
    assert!(single.loop_range().is_none());
}

#[test]
fn frame_index_without_looping() {
    let track = scalar_track(Interpolation::Linear, &KEYS);
    assert_eq!(track.frame_index(at(-3.0), false), Some(0));
    assert_eq!(track.frame_index(at(0.5), false), Some(0));
    assert_eq!(track.frame_index(at(0.75), false), Some(0));
    assert_eq!(track.frame_index(at(1.0), false), Some(1));
    assert_eq!(track.frame_index(at(1.999), false), Some(1));
    assert_eq!(track.frame_index(at(2.0), false), Some(2));
    assert_eq!(track.frame_index(at(3.0), false), Some(2));
    assert_eq!(track.frame_index(at(4.0), false), Some(2));
    assert_eq!(track.frame_index(at(99.0), false), Some(2));
}

#[test]
fn frame_index_with_looping_takes_the_last_frame_not_later() {
    let track = scalar_track(Interpolation::Linear, &KEYS);
    assert_eq!(track.frame_index(at(0.5), true), Some(0));
    assert_eq!(track.frame_index(at(0.99), true), Some(0));
    assert_eq!(track.frame_index(at(1.0), true), Some(1));
    assert_eq!(track.frame_index(at(3.99), true), Some(2));
    // instants outside the range, had they not been folded
    assert_eq!(track.frame_index(at(0.25), true), None);
    assert_eq!(track.frame_index(at(4.0), true), Some(3));
}

#[test]
fn constant_tracks_hold_the_governing_frame() {
    let track = scalar_track(Interpolation::Constant, &KEYS);
    assert_eq!(plan(&track, 0.0, false), (1, 0, 0, 0.0));
    assert_eq!(plan(&track, 1.5, false), (1, 1, 1, 0.0));
    assert_eq!(plan(&track, 9.0, false), (1, 2, 2, 0.0));
    assert_eq!(value(&track, 1.5, false), 20.0);
    assert_eq!(value(&track, 3.0, false), 40.0);
}

#[test]
fn linear_tracks_run_between_neighbours() {
    let track = scalar_track(Interpolation::Linear, &KEYS);
    assert_eq!(plan(&track, 0.75, false), (2, 0, 1, 0.75));
    assert_eq!(plan(&track, 1.5, false), (2, 1, 2, 1.5));
    assert_eq!(plan(&track, 3.0, false), (2, 2, 3, 3.0));
    assert_eq!(value(&track, 0.75, false), 15.0);
    assert_eq!(value(&track, 1.5, false), 30.0);
    assert_eq!(value(&track, 3.0, false), 20.0);
}

#[test]
fn cubic_tracks_run_between_neighbours() {
    let track = scalar_track(Interpolation::Cubic, &KEYS);
    assert_eq!(plan(&track, 1.5, false), (3, 1, 2, 1.5));
    // with zero tangents the curve passes the midpoint halfway
    assert_eq!(value(&track, 1.5, false), 30.0);
}

#[test]
fn cubic_tangents_count_per_second() {
    let frames = vec![Frame::new(at(0.0), 0.0f32, 1.0, 0.0), Frame::new(at(2.0), 1.0, 0.0, 2.0)];
    let track = Track::new_with_args(Interpolation::Cubic, frames);
    // a straight line of slope 1: tangents 1 per second over two seconds
    assert_eq!(value(&track, 0.5, false), 0.5);
    assert_eq!(value(&track, 1.0, false), 1.0);
    assert_eq!(value(&track, 1.5, false), 1.5);
}

#[test]
fn sampling_at_a_keyframe_returns_its_value() {
    for &interp in [Interpolation::Constant, Interpolation::Linear, Interpolation::Cubic].iter() {
        let track = scalar_track(interp, &KEYS);
        for (i, &(t, v)) in KEYS.iter().enumerate() {
            if interp == Interpolation::Constant && i == KEYS.len() - 1 {
                // a constant track holds the frame before the last to the end
                assert_eq!(value(&track, t, false), KEYS[i - 1].1);
            } else {
                assert_eq!(value(&track, t, false), v);
            }
        }
    }
}

#[test]
fn sampling_at_a_keyframe_addresses_the_stretch_at_it() {
    let track = scalar_track(Interpolation::Linear, &KEYS);
    assert_eq!(plan(&track, 0.5, false), (2, 0, 1, 0.5));
    assert_eq!(plan(&track, 1.0, false), (2, 1, 2, 1.0));
    assert_eq!(plan(&track, 2.0, false), (2, 2, 3, 2.0));
    assert_eq!(plan(&track, 4.0, false), (2, 2, 3, 4.0));
}

#[test]
fn instants_outside_a_track_that_does_not_loop_are_held_to_it() {
    for &interp in [Interpolation::Constant, Interpolation::Linear, Interpolation::Cubic].iter() {
        let track = scalar_track(interp, &KEYS);
        for &t in [-100.0f32, -1.0, 0.0, 0.49].iter() {
            assert_eq!(plan(&track, t, false), plan(&track, 0.5, false));
            assert_eq!(value(&track, t, false), value(&track, 0.5, false));
        }
        for &t in [4.01f32, 5.0, 1000.0].iter() {
            assert_eq!(plan(&track, t, false), plan(&track, 4.0, false));
            assert_eq!(value(&track, t, false), value(&track, 4.0, false));
        }
    }
}

#[test]
fn looping_tracks_repeat_with_their_period() {
    let keys = [(0.0, 1.0), (0.5, 3.0), (1.5, -1.0), (2.0, 1.0)];
    for &interp in [Interpolation::Constant, Interpolation::Linear, Interpolation::Cubic].iter() {
        let track = scalar_track(interp, &keys);
        for &t in [0.0f32, 0.25, 0.5, 1.0, 1.75].iter() {
            for &k in [-3.0f32, -1.0, 1.0, 2.0, 8.0].iter() {
                assert_eq!(value(&track, t + k * 2.0, true), value(&track, t, true));
            }
        }
    }
}

#[test]
fn a_looping_track_without_a_stretch_of_time_rests() {
    let track = scalar_track(Interpolation::Constant, &[(1.0, 5.0), (1.0, 6.0)]);
    assert!(track.loop_range().is_none());
    assert_eq!(plan(&track, 1.0, true).0, 0);
    assert_eq!(plan(&track, 0.0, true).0, 0);
    // without looping the first frame is held
    assert_eq!(plan(&track, 1.0, false), (1, 0, 0, 0.0));
}

#[test]
fn frames_that_share_an_instant_make_the_track_rest_there() {
    let track = scalar_track(Interpolation::Linear, &[(0.0, 1.0), (1.0, 2.0), (1.0, 3.0), (2.0, 4.0)]);
    assert_eq!(track.frame_index(at(1.0), true), Some(2));
    assert_eq!(plan(&track, 1.5, true), (2, 2, 3, 1.5));
    // between frames 1 and 2 there is no time: the governing frame is 2
    let odd = scalar_track(Interpolation::Linear, &[(0.0, 1.0), (1.0, 2.0), (1.0, 3.0)]);
    assert_eq!(odd.frame_index(at(1.0), false), Some(1));
    assert_eq!(plan(&odd, 1.0, false).0, 0);
}

#[test]
fn track_time_is_zero_without_a_stretch_of_time() {
    let flat = scalar_track(Interpolation::Linear, &[(3.0, 1.0), (3.0, 2.0)]);
    assert_eq!(secs(flat.track_time(at(5.0), false)), 0.0);
    assert_eq!(secs(flat.track_time(at(5.0), true)), 0.0);
    let empty = scalar_track(Interpolation::Linear, &[]);
    assert_eq!(secs(empty.track_time(at(5.0), false)), 0.0);
    let track = scalar_track(Interpolation::Linear, &KEYS);
    assert_eq!(secs(track.track_time(at(5.0), false)), 4.0);
    assert_eq!(secs(track.track_time(at(0.0), false)), 0.5);
    assert_eq!(secs(track.track_time(at(1.25), false)), 1.25);
    assert_eq!(secs(track.track_time(at(1.25), true)), 1.25);
}

#[test]
fn leg_pin_interpolation() {
    let pin = scalar_track(Interpolation::Cubic, &[(0.0, 0.0), (0.4, 1.0), (0.6, 1.0), (1.0, 0.0)]);
    assert_eq!(plan(&pin, 0.5, true).0, 3);
    assert_eq!((plan(&pin, 0.5, true).1, plan(&pin, 0.5, true).2), (1, 2));
    assert!((value(&pin, 0.5, true) - 1.0).abs() < 1.0e-6);
    assert!((value(&pin, 0.5, false) - 1.0).abs() < 1.0e-6);
    assert_eq!(value(&pin, 0.0, true), 0.0);
    assert_eq!(value(&pin, 1.0, true), 0.0);
    assert_eq!(value(&pin, 0.0, false), 0.0);
    assert_eq!(value(&pin, 1.0, false), 0.0);
}

#[test]
fn a_looping_track_is_sampled_at_the_folded_time() {
    let track = scalar_track(Interpolation::Linear, &KEYS);
    // the track covers 0.5 to 4.0: a period of 3.5
    for &(t, folded) in [(4.5f32, 1.0f32), (-2.5, 1.0), (0.5, 0.5), (4.0, 0.5), (8.25, 1.25)].iter() {
        match track.sample(at(t), true, &fold_time) {
            Sample::Linear { at, .. } => assert_eq!(secs(at), folded),
            _ => panic!("a linear track runs between its frames"),
        }
    }
    assert_eq!(value(&track, 4.5, true), 20.0);
    assert_eq!(value(&track, 8.25, true), 25.0);
}

#[test]
fn a_track_that_does_not_loop_is_not_folded() {
    let track = scalar_track(Interpolation::Linear, &KEYS);
    let never = |_: Time, _: Time, _: Time| -> Time { panic!("nothing to fold") };
    match track.sample(at(4.5), false, &never) {
        Sample::Linear { from, to, at } => assert_eq!((from, to, secs(at)), (2, 3, 4.0)),
        _ => panic!("a linear track runs between its frames"),
    }
    // nor is a looping track that covers no stretch of time
    let flat = scalar_track(Interpolation::Linear, &[(1.0, 1.0), (1.0, 2.0)]);
    assert!(matches!(flat.sample(at(4.5), true, &never), Sample::Rest));
}
