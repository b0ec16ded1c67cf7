use vstd::prelude::*;

use crate::spline_group::PlaybackState;
use crate::spline_group::group_is_empty;
use crate::spline_group::lemma_start_end_some_iff;
use crate::spline_group::spec_advance_pong;
use crate::spline_group::spec_advance_time;
use crate::spline_group::spec_duration;
use crate::spline_group::spec_end_time;
use crate::spline_group::spec_start_time;

verus! {

/// The playback state after one tick of `delta_time`, packaged so the laws
/// below can iterate ticks.
pub open spec fn spec_advance_state(
    ranges: Seq<Option<(i64, i64)>>,
    st: PlaybackState,
    delta_time: i64,
) -> PlaybackState {
    PlaybackState {
        time: spec_advance_time(ranges, st, delta_time) as i64,
        pong: spec_advance_pong(ranges, st),
        ..st
    }
}

/// The playback state after a whole sequence of ticks, applied front to
/// back.
pub open spec fn spec_advance_state_many(
    ranges: Seq<Option<(i64, i64)>>,
    st: PlaybackState,
    deltas: Seq<i64>,
) -> PlaybackState
    decreases deltas.len(),
{
    if deltas.len() == 0 {
        st
    } else {
        spec_advance_state_many(
            ranges,
            spec_advance_state(ranges, st, deltas.first()),
            deltas.drop_first(),
        )
    }
}

/// While the group is paused, any number of ticks of any sizes leaves the
/// whole playback state — in particular `time` and `pong` — unchanged.
pub proof fn lemma_paused_advance_is_noop(
    ranges: Seq<Option<(i64, i64)>>,
    st: PlaybackState,
    deltas: Seq<i64>,
)
    requires
        st.paused,
    ensures
        spec_advance_state_many(ranges, st, deltas) == st,
    decreases deltas.len(),
{
    if deltas.len() > 0 {
        assert(spec_advance_state(ranges, st, deltas.first()) == st);
        lemma_paused_advance_is_noop(ranges, st, deltas.drop_first());
    }
}

/// If every track is empty, any number of ticks leaves the state unchanged,
/// and the start time, end time and duration are all absent.
pub proof fn lemma_empty_group_is_stable(
    ranges: Seq<Option<(i64, i64)>>,
    st: PlaybackState,
    deltas: Seq<i64>,
)
    requires
        group_is_empty(ranges),
    ensures
        spec_advance_state_many(ranges, st, deltas) == st,
        spec_start_time(ranges) is None,
        spec_end_time(ranges) is None,
        spec_duration(ranges) is None,
    decreases deltas.len(),
{
    lemma_start_end_some_iff(ranges);
    if deltas.len() > 0 {
        assert(spec_advance_state(ranges, st, deltas.first()) == st);
        lemma_empty_group_is_stable(ranges, st, deltas.drop_first());
    }
}

/// The start time is the least first-key time: it is attained by some
/// non-empty track, and no non-empty track's first key lies before it.
pub proof fn lemma_start_time_is_least_first_key(ranges: Seq<Option<(i64, i64)>>)
    ensures
        spec_start_time(ranges) is Some ==> exists|i: int|
            0 <= i < ranges.len() && (#[trigger] ranges[i]) is Some && ranges[i].unwrap().0
                == spec_start_time(ranges).unwrap(),
        forall|i: int|
            0 <= i < ranges.len() && (#[trigger] ranges[i]) is Some ==> spec_start_time(ranges)
                is Some && spec_start_time(ranges).unwrap() <= ranges[i].unwrap().0,
    decreases ranges.len(),
{
    if ranges.len() > 0 {
        let prefix = ranges.drop_last();
        let n = ranges.len() - 1;
        lemma_start_time_is_least_first_key(prefix);
        assert(forall|i: int| 0 <= i < n ==> prefix[i] == ranges[i]);
        assert(ranges.last() == ranges[n]);
        if spec_start_time(ranges) is Some {
            let m = spec_start_time(ranges).unwrap();
            if ranges[n] is Some && ranges[n].unwrap().0 == m {
            } else {
                assert(spec_start_time(prefix) is Some && spec_start_time(prefix).unwrap() == m);
                let w = choose|i: int|
                    0 <= i < prefix.len() && (#[trigger] prefix[i]) is Some
                        && prefix[i].unwrap().0 == m;
                assert(ranges[w] is Some && ranges[w].unwrap().0 == m);
            }
        }
        assert forall|i: int|
            0 <= i < ranges.len() && (#[trigger] ranges[i]) is Some implies spec_start_time(ranges)
            is Some && spec_start_time(ranges).unwrap() <= ranges[i].unwrap().0 by {
            if i < n {
                assert(prefix[i] is Some);
            }
        }
    }
}

/// The end time is the greatest last-key time: it is attained by some
/// non-empty track, and no non-empty track's last key lies after it.
pub proof fn lemma_end_time_is_greatest_last_key(ranges: Seq<Option<(i64, i64)>>)
    ensures
        spec_end_time(ranges) is Some ==> exists|i: int|
            0 <= i < ranges.len() && (#[trigger] ranges[i]) is Some && ranges[i].unwrap().1
                == spec_end_time(ranges).unwrap(),
        forall|i: int|
            0 <= i < ranges.len() && (#[trigger] ranges[i]) is Some ==> spec_end_time(ranges)
                is Some && spec_end_time(ranges).unwrap() >= ranges[i].unwrap().1,
    decreases ranges.len(),
{
    if ranges.len() > 0 {
        let prefix = ranges.drop_last();
        let n = ranges.len() - 1;
        lemma_end_time_is_greatest_last_key(prefix);
        assert(forall|i: int| 0 <= i < n ==> prefix[i] == ranges[i]);
        assert(ranges.last() == ranges[n]);
        if spec_end_time(ranges) is Some {
            let m = spec_end_time(ranges).unwrap();
            if ranges[n] is Some && ranges[n].unwrap().1 == m {
            } else {
                assert(spec_end_time(prefix) is Some && spec_end_time(prefix).unwrap() == m);
                let w = choose|i: int|
                    0 <= i < prefix.len() && (#[trigger] prefix[i]) is Some
                        && prefix[i].unwrap().1 == m;
                assert(ranges[w] is Some && ranges[w].unwrap().1 == m);
            }
        }
        assert forall|i: int|
            0 <= i < ranges.len() && (#[trigger] ranges[i]) is Some implies spec_end_time(ranges)
            is Some && spec_end_time(ranges).unwrap() >= ranges[i].unwrap().1 by {
            if i < n {
                assert(prefix[i] is Some);
            }
        }
    }
}

/// The duration, when it exists, is the absolute difference between start
/// and end time: non-negative whichever of the two tracks holds the earlier
/// key.
pub proof fn lemma_duration_is_absolute_difference(ranges: Seq<Option<(i64, i64)>>)
    ensures
        spec_duration(ranges) is Some ==> spec_duration(ranges).unwrap() >= 0,
        spec_duration(ranges) is Some ==> {
            let s = spec_start_time(ranges).unwrap() as int;
            let e = spec_end_time(ranges).unwrap() as int;
            spec_duration(ranges).unwrap() == (if s >= e { s - e } else { e - s })
        },
{
}

/// Swapping the ranges of any two tracks — in particular the ones holding
/// the least and greatest key — changes neither start time, end time nor
/// duration.
pub proof fn lemma_duration_swap_invariant(ranges: Seq<Option<(i64, i64)>>, i: int, j: int)
    requires
        0 <= i < ranges.len(),
        0 <= j < ranges.len(),
    ensures
        spec_start_time(ranges.update(i, ranges[j]).update(j, ranges[i])) == spec_start_time(
            ranges,
        ),
        spec_end_time(ranges.update(i, ranges[j]).update(j, ranges[i])) == spec_end_time(ranges),
        spec_duration(ranges.update(i, ranges[j]).update(j, ranges[i])) == spec_duration(ranges),
{
    let swapped = ranges.update(i, ranges[j]).update(j, ranges[i]);
    assert(swapped.len() == ranges.len());
    assert(forall|k: int|
        0 <= k < ranges.len() ==> #[trigger] swapped[k] == (if k == j {
            ranges[i]
        } else if k == i {
            ranges[j]
        } else {
            ranges[k]
        }));
    lemma_start_time_is_least_first_key(ranges);
    lemma_start_time_is_least_first_key(swapped);
    lemma_end_time_is_greatest_last_key(ranges);
    lemma_end_time_is_greatest_last_key(swapped);
    if spec_start_time(ranges) is Some {
        let m = spec_start_time(ranges).unwrap();
        let w = choose|k: int|
            0 <= k < ranges.len() && (#[trigger] ranges[k]) is Some && ranges[k].unwrap().0 == m;
        let w2: int = if w == i {
            j
        } else if w == j {
            i
        } else {
            w
        };
        assert(swapped[w2] == ranges[w]);
    }
    if spec_start_time(swapped) is Some {
        let m = spec_start_time(swapped).unwrap();
        let w = choose|k: int|
            0 <= k < swapped.len() && (#[trigger] swapped[k]) is Some && swapped[k].unwrap().0 == m;
        let w2: int = if w == j {
            i
        } else if w == i {
            j
        } else {
            w
        };
        assert(ranges[w2] == swapped[w]);
    }
    if spec_end_time(ranges) is Some {
        let m = spec_end_time(ranges).unwrap();
        let w = choose|k: int|
            0 <= k < ranges.len() && (#[trigger] ranges[k]) is Some && ranges[k].unwrap().1 == m;
        let w2: int = if w == i {
            j
        } else if w == j {
            i
        } else {
            w
        };
        assert(swapped[w2] == ranges[w]);
    }
    if spec_end_time(swapped) is Some {
        let m = spec_end_time(swapped).unwrap();
        let w = choose|k: int|
            0 <= k < swapped.len() && (#[trigger] swapped[k]) is Some && swapped[k].unwrap().1 == m;
        let w2: int = if w == j {
            i
        } else if w == i {
            j
        } else {
            w
        };
        assert(ranges[w2] == swapped[w]);
    }
}

/// With a negative speed the traversal is reversed: under the `Loop` policy
/// (ping-pong flag clear), a cursor that has crossed the start boundary —
/// not the end boundary — snaps to the end time on the next tick.
pub proof fn lemma_reversed_loop_restarts_at_end(
    ranges: Seq<Option<(i64, i64)>>,
    st: PlaybackState,
    delta_time: i64,
)
    requires
        !group_is_empty(ranges),
        !st.paused,
        st.speed < 0,
        !st.pong,
        st.loop_style is Loop,
        spec_start_time(ranges).unwrap() > st.time,
    ensures
        spec_advance_time(ranges, st, delta_time) == spec_end_time(ranges).unwrap() as int,
        spec_advance_pong(ranges, st) == st.pong,
{
    lemma_start_end_some_iff(ranges);
}

} // verus!
