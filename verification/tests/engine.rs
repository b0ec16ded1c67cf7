// Tests of the engine's free functions over several tracks: the boundary
// scan folds the earliest first key and the latest last key over every
// track's range, and one tick applies the loop policy against those
// boundaries.

use spline_playback::LoopStyle;
use spline_playback::PlaybackState;
use spline_playback::spline_group::advance_state;
use spline_playback::spline_group::duration_of;
use spline_playback::spline_group::end_time_of;
use spline_playback::spline_group::is_empty_of;
use spline_playback::spline_group::start_time_of;

fn state(loop_style: LoopStyle, time: i64, speed: i64) -> PlaybackState {
    PlaybackState { loop_style, time, speed, paused: false, pong: false }
}

#[test]
fn boundaries_fold_over_all_tracks() {
    let ranges = vec![Some((5, 12)), None, Some((0, 8)), Some((3, 30))];
    assert!(!is_empty_of(&ranges));
    assert_eq!(start_time_of(&ranges), Some(0));
    assert_eq!(end_time_of(&ranges), Some(30));
    assert_eq!(duration_of(&ranges), Some(30));
}

#[test]
fn empty_tracks_yield_no_boundaries() {
    let ranges: Vec<Option<(i64, i64)>> = vec![None, None];
    assert!(is_empty_of(&ranges));
    assert_eq!(start_time_of(&ranges), None);
    assert_eq!(end_time_of(&ranges), None);
    assert_eq!(duration_of(&ranges), None);
    let no_tracks: Vec<Option<(i64, i64)>> = vec![];
    assert!(is_empty_of(&no_tracks));
    assert_eq!(duration_of(&no_tracks), None);
}

#[test]
fn duration_invariant_under_track_swap() {
    // Which track holds the least and the greatest key does not matter.
    let ranges = vec![Some((0, 5)), Some((2, 30))];
    let swapped = vec![Some((2, 30)), Some((0, 5))];
    assert_eq!(start_time_of(&ranges), start_time_of(&swapped));
    assert_eq!(end_time_of(&ranges), end_time_of(&swapped));
    assert_eq!(duration_of(&ranges), duration_of(&swapped));
    assert_eq!(duration_of(&ranges), Some(30));
}

#[test]
fn multi_track_loop_wraps_at_union_boundary() {
    // The union range is (0, 30): the cursor loops there, not at any single
    // track's own end.
    let ranges = vec![Some((10, 12)), Some((0, 8)), Some((3, 30))];
    let mut st = state(LoopStyle::Loop, 28, 1);
    advance_state(&ranges, &mut st, 4);
    assert_eq!(st.time, 32);
    advance_state(&ranges, &mut st, 1);
    assert_eq!(st.time, 0);
}

#[test]
fn empty_state_unchanged_by_tick() {
    let ranges: Vec<Option<(i64, i64)>> = vec![None];
    let mut st = state(LoopStyle::PingPong, 17, -4);
    st.pong = true;
    advance_state(&ranges, &mut st, 9);
    assert_eq!(st.time, 17);
    assert!(st.pong);
}

#[test]
fn paused_state_unchanged_by_tick() {
    let ranges = vec![Some((0, 10))];
    let mut st = state(LoopStyle::Loop, 4, 2);
    st.paused = true;
    advance_state(&ranges, &mut st, 9);
    assert_eq!(st.time, 4);
    assert!(!st.pong);
    assert!(st.paused);
}
