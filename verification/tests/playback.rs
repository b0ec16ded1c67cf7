// Scenario tests for the playback engine. Times are fixed-point: each test
// picks a unit (tenths or hundredths of a time unit) and writes every key
// time, cursor and tick delta as a count of it.

use spline_playback::AnimationSplineOne;
use spline_playback::LoopStyle;
use spline_playback::SplineGroup;
use spline_playback::Track;

fn one_track_group(key_times: &[i64]) -> AnimationSplineOne {
    let mut group = AnimationSplineOne::default();
    for &t in key_times {
        group.track.push_key_time(t);
    }
    group
}

#[test]
fn default_state() {
    let group = AnimationSplineOne::default();
    assert_eq!(group.loop_style, LoopStyle::Once);
    assert_eq!(group.time, 0);
    assert_eq!(group.speed, 1);
    assert!(!group.paused);
    assert!(!group.pong);
    assert!(group.track.key_times.is_empty());
}

#[test]
fn empty_group_is_stable() {
    // Every track empty: advance never mutates, and all queries are absent.
    let mut group = AnimationSplineOne::default();
    group.speed = 5;
    group.loop_style = LoopStyle::Loop;
    assert!(group.is_empty());
    assert_eq!(group.spline_key_times(), vec![None]);
    assert_eq!(group.start_time(), None);
    assert_eq!(group.end_time(), None);
    assert_eq!(group.duration(), None);
    for d in [0, 1, 7, -3, 1000] {
        group.advance(d);
        assert_eq!(group.time, 0);
        assert!(!group.pong);
    }
}

#[test]
fn paused_advance_is_noop() {
    let mut group = one_track_group(&[0, 10, 20]);
    group.time = 13;
    group.pong = true;
    group.loop_style = LoopStyle::PingPong;
    group.pause();
    assert!(group.paused());
    for d in [1, 2, 50, -4] {
        group.advance(d);
        assert_eq!(group.time(), 13);
        assert!(group.pong());
    }
    group.play();
    assert!(!group.paused());
}

#[test]
fn toggle_pause_inverts() {
    let mut group = AnimationSplineOne::default();
    assert!(!group.paused());
    group.toggle_pause();
    assert!(group.paused());
    group.toggle_pause();
    assert!(!group.paused());
}

#[test]
fn once_freezes_past_end() {
    // Keys at {0.0, 1.0, 2.0} in tenths; time 1.9, speed 1, Once.
    let mut group = one_track_group(&[0, 10, 20]);
    group.time = 19;
    group.loop_style = LoopStyle::Once;
    // Overshoots: the boundary test reads the pre-tick cursor.
    group.advance(5);
    assert_eq!(group.time, 24);
    // Now end(20) < time(24): the cursor stays frozen.
    group.advance(5);
    assert_eq!(group.time, 24);
}

#[test]
fn loop_wraps_to_start() {
    // Same track; Loop snaps to start on the tick after the overshoot.
    let mut group = one_track_group(&[0, 10, 20]);
    group.time = 19;
    group.loop_style = LoopStyle::Loop;
    group.advance(5);
    assert_eq!(group.time, 24);
    group.advance(1);
    assert_eq!(group.time, 0);
}

#[test]
fn ping_pong_flips_at_end() {
    // Keys {0.0, 1.0} in hundredths; time 0.9, speed 1, PingPong.
    let mut group = one_track_group(&[0, 100]);
    group.time = 90;
    group.loop_style = LoopStyle::PingPong;
    group.advance(20);
    assert_eq!(group.time, 110);
    assert!(!group.pong);
    // end(100) < time(110): pong flips and the cursor snaps to the end.
    group.advance(5);
    assert_eq!(group.time, 100);
    assert!(group.pong);
}

#[test]
fn ping_pong_flips_at_start() {
    // Travelling backwards (pong set), the start boundary flips it back.
    let mut group = one_track_group(&[0, 100]);
    group.time = 10;
    group.pong = true;
    group.loop_style = LoopStyle::PingPong;
    group.advance(20);
    assert_eq!(group.time, -10);
    assert!(group.pong);
    // start(0) > time(-10): pong flips clear and the cursor snaps to start.
    group.advance(5);
    assert_eq!(group.time, 0);
    assert!(!group.pong);
}

#[test]
fn reversed_loop_snaps_to_end() {
    // Negative speed reverses traversal: under Loop, crossing start_time
    // triggers the snap to end_time.
    let mut group = one_track_group(&[0, 10, 20]);
    group.time = 5;
    group.speed = -1;
    group.loop_style = LoopStyle::Loop;
    group.advance(7);
    assert_eq!(group.time, -2);
    group.advance(1);
    assert_eq!(group.time, 20);
}

#[test]
fn duration_is_absolute_difference() {
    // A track whose first key lies after its last still yields a
    // non-negative duration.
    let mut group = one_track_group(&[20, 0]);
    assert_eq!(group.start_time(), Some(20));
    assert_eq!(group.end_time(), Some(0));
    assert_eq!(group.duration(), Some(20));
    group.track = Track::new();
    group.track.push_key_time(3);
    assert_eq!(group.duration(), Some(0));
}

#[test]
fn setters_and_getters_round_trip() {
    let mut group = one_track_group(&[0, 10]);
    group.set_loop_style(LoopStyle::PingPong);
    assert_eq!(group.loop_style(), LoopStyle::PingPong);
    group.set_time(-7);
    assert_eq!(group.time(), -7);
    group.set_speed(-3);
    assert_eq!(group.speed(), -3);
    group.set_paused(true);
    assert!(group.paused());
    group.set_pong(true);
    assert!(group.pong());
    assert_eq!(group.spline_key_times(), vec![Some((0, 10))]);
}

#[test]
fn track_key_range() {
    let mut track = Track::new();
    assert_eq!(track.key_range(), None);
    track.push_key_time(4);
    assert_eq!(track.key_range(), Some((4, 4)));
    track.push_key_time(9);
    track.push_key_time(15);
    assert_eq!(track.key_range(), Some((4, 15)));
}

#[test]
fn speed_scales_cursor_delta() {
    let mut group = one_track_group(&[0, 100]);
    group.speed = 3;
    group.advance(10);
    assert_eq!(group.time, 30);
    group.speed = -2;
    group.advance(10);
    assert_eq!(group.time, 10);
}
