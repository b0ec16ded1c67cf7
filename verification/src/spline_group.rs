use vstd::prelude::*;

verus! {

/// Playback policy applied when the cursor has crossed a boundary of the
/// track-set's key-time range.
#[derive(Clone, Copy, Debug, PartialEq, Eq, Structural)]
pub enum LoopStyle {
    /// Advance freely; once past the boundary the cursor stays frozen.
    Once,
    /// Snap the cursor back to the restart point when past the boundary.
    Loop,
    /// Reverse direction at each boundary instead of restarting.
    PingPong,
}

/// Shared playback state of a track-set: the policy, the cursor, the signed
/// speed factor, the pause flag and the ping-pong direction flag.
///
/// Times are fixed-point: the caller picks the unit (say, milliseconds), and
/// every key time, cursor value and tick delta is a count of that unit. The
/// cursor moves by `delta_time * speed` per tick, so `speed` is a signed
/// integer factor whose sign sets the direction of travel.
#[derive(Clone, Copy, Debug, PartialEq, Eq, Structural)]
pub struct PlaybackState {
    pub loop_style: LoopStyle,
    pub time: i64,
    pub speed: i64,
    pub paused: bool,
    pub pong: bool,
}

/// A track-set is empty iff every track contributes no key times at all.
pub open spec fn group_is_empty(ranges: Seq<Option<(i64, i64)>>) -> bool {
    forall|i: int| 0 <= i < ranges.len() ==> ranges[i] is None
}

/// Earliest first-key time over all non-empty tracks; `None` iff every track
/// is empty. Each entry of `ranges` is the (first, last) key-time pair of one
/// track, or `None` for a track without keys.
pub open spec fn spec_start_time(ranges: Seq<Option<(i64, i64)>>) -> Option<i64>
    decreases ranges.len(),
{
    if ranges.len() == 0 {
        None
    } else {
        let prev = spec_start_time(ranges.drop_last());
        match ranges.last() {
            None => prev,
            Some(r) => match prev {
                None => Some(r.0),
                Some(acc) => Some(if r.0 < acc { r.0 } else { acc }),
            },
        }
    }
}

/// Latest last-key time over all non-empty tracks; `None` iff every track is
/// empty.
pub open spec fn spec_end_time(ranges: Seq<Option<(i64, i64)>>) -> Option<i64>
    decreases ranges.len(),
{
    if ranges.len() == 0 {
        None
    } else {
        let prev = spec_end_time(ranges.drop_last());
        match ranges.last() {
            None => prev,
            Some(r) => match prev {
                None => Some(r.1),
                Some(acc) => Some(if r.1 > acc { r.1 } else { acc }),
            },
        }
    }
}

/// Absolute difference between start and end time; `None` iff every track is
/// empty. Always non-negative, whichever of the two is larger.
pub open spec fn spec_duration(ranges: Seq<Option<(i64, i64)>>) -> Option<int> {
    if spec_start_time(ranges) is Some && spec_end_time(ranges) is Some {
        let s = spec_start_time(ranges).unwrap() as int;
        let e = spec_end_time(ranges).unwrap() as int;
        Some(if s >= e { s - e } else { e - s })
    } else {
        None
    }
}

/// The boundary test of a tick: has the cursor, as left by the previous tick,
/// already crossed the boundary it is travelling towards? The test reads the
/// pre-tick cursor, so a tick may overshoot the boundary and only the next
/// tick detects it.
pub open spec fn spec_past_boundary(ranges: Seq<Option<(i64, i64)>>, st: PlaybackState) -> bool
    recommends
        !group_is_empty(ranges),
{
    let start = spec_start_time(ranges).unwrap();
    let end = spec_end_time(ranges).unwrap();
    let reversed = st.speed < 0;
    match (reversed, st.pong) {
        (true, true) => end < st.time,
        (true, false) => start > st.time,
        (false, true) => start > st.time,
        (false, false) => end < st.time,
    }
}

/// Signed cursor displacement of a tick that advances freely: `delta_time *
/// speed`, negated while ping-pong travels backwards.
pub open spec fn spec_moving_delta(st: PlaybackState, delta_time: i64) -> int {
    if st.loop_style is PingPong && st.pong {
        -((delta_time as int) * (st.speed as int))
    } else {
        (delta_time as int) * (st.speed as int)
    }
}

/// Cursor value after one tick of `delta_time`, as an unbounded integer.
pub open spec fn spec_advance_time(
    ranges: Seq<Option<(i64, i64)>>,
    st: PlaybackState,
    delta_time: i64,
) -> int {
    if group_is_empty(ranges) || st.paused {
        st.time as int
    } else if !spec_past_boundary(ranges, st) {
        st.time + spec_moving_delta(st, delta_time)
    } else {
        let start = spec_start_time(ranges).unwrap();
        let end = spec_end_time(ranges).unwrap();
        match st.loop_style {
            LoopStyle::Once => st.time as int,
            LoopStyle::Loop => if st.speed < 0 { end as int } else { start as int },
            LoopStyle::PingPong => if !st.pong { end as int } else { start as int },
        }
    }
}

/// Ping-pong direction flag after one tick: it flips exactly when the tick
/// handles a crossed boundary under the ping-pong policy.
pub open spec fn spec_advance_pong(ranges: Seq<Option<(i64, i64)>>, st: PlaybackState) -> bool {
    if group_is_empty(ranges) || st.paused {
        st.pong
    } else if spec_past_boundary(ranges, st) && st.loop_style is PingPong {
        !st.pong
    } else {
        st.pong
    }
}

/// The post-tick cursor stays representable: the only bound the machine
/// forces on `advance`, since the cursor is held in an `i64`.
pub open spec fn advance_fits(
    ranges: Seq<Option<(i64, i64)>>,
    st: PlaybackState,
    delta_time: i64,
) -> bool {
    i64::MIN as int <= spec_advance_time(ranges, st, delta_time) <= i64::MAX as int
}

/// Start and end time exist exactly for a non-empty track-set.
pub proof fn lemma_start_end_some_iff(ranges: Seq<Option<(i64, i64)>>)
    ensures
        (spec_start_time(ranges) is Some) <==> !group_is_empty(ranges),
        (spec_end_time(ranges) is Some) <==> !group_is_empty(ranges),
    decreases ranges.len(),
{
    if ranges.len() == 0 {
    } else {
        let prefix = ranges.drop_last();
        lemma_start_end_some_iff(prefix);
        if group_is_empty(prefix) && ranges.last() is None {
            assert forall|i: int| 0 <= i < ranges.len() implies ranges[i] is None by {
                if i < ranges.len() - 1 {
                    assert(prefix[i] is None);
                } else {
                    assert(ranges[i] == ranges.last());
                }
            }
        }
        if group_is_empty(ranges) {
            assert forall|i: int| 0 <= i < prefix.len() implies prefix[i] is None by {
                assert(ranges[i] is None);
            }
            assert(ranges.last() is None);
        }
    }
}

/// True iff every track of `ranges` is empty, scanning every entry as the
/// engine's emptiness query does.
pub fn is_empty_of(ranges: &Vec<Option<(i64, i64)>>) -> (r: bool)
    ensures
        r == group_is_empty(ranges@),
{
    let mut i: usize = 0;
    let mut all_none = true;
    while i < ranges.len()
        invariant
            i <= ranges@.len(),
            all_none == (forall|j: int| 0 <= j < i ==> ranges@[j] is None),
        decreases ranges@.len() - i,
    {
        if ranges[i].is_some() {
            all_none = false;
        }
        i = i + 1;
    }
    all_none
}

/// Fold the earliest first-key time out of the per-track ranges.
pub fn start_time_of(ranges: &Vec<Option<(i64, i64)>>) -> (r: Option<i64>)
    ensures
        r == spec_start_time(ranges@),
{
    let mut i: usize = 0;
    let mut acc: Option<i64> = None;
    while i < ranges.len()
        invariant
            i <= ranges@.len(),
            acc == spec_start_time(ranges@.take(i as int)),
        decreases ranges@.len() - i,
    {
        match ranges[i] {
            None => {},
            Some((first, _last)) => {
                acc = match acc {
                    None => Some(first),
                    Some(m) => if first < m { Some(first) } else { Some(m) },
                };
            },
        }
        proof {
            assert(ranges@.take(i as int + 1).drop_last() =~= ranges@.take(i as int));
            assert(ranges@.take(i as int + 1).last() == ranges@[i as int]);
        }
        i = i + 1;
    }
    proof {
        assert(ranges@.take(ranges@.len() as int) =~= ranges@);
    }
    acc
}

/// Fold the latest last-key time out of the per-track ranges.
pub fn end_time_of(ranges: &Vec<Option<(i64, i64)>>) -> (r: Option<i64>)
    ensures
        r == spec_end_time(ranges@),
{
    let mut i: usize = 0;
    let mut acc: Option<i64> = None;
    while i < ranges.len()
        invariant
            i <= ranges@.len(),
            acc == spec_end_time(ranges@.take(i as int)),
        decreases ranges@.len() - i,
    {
        match ranges[i] {
            None => {},
            Some((_first, last)) => {
                acc = match acc {
                    None => Some(last),
                    Some(m) => if last > m { Some(last) } else { Some(m) },
                };
            },
        }
        proof {
            assert(ranges@.take(i as int + 1).drop_last() =~= ranges@.take(i as int));
            assert(ranges@.take(i as int + 1).last() == ranges@[i as int]);
        }
        i = i + 1;
    }
    proof {
        assert(ranges@.take(ranges@.len() as int) =~= ranges@);
    }
    acc
}

/// Absolute difference between start and end time, `None` for an empty
/// track-set. The difference of two `i64` times always fits a `u64`.
pub fn duration_of(ranges: &Vec<Option<(i64, i64)>>) -> (r: Option<u64>)
    ensures
        (r is Some) <==> (spec_duration(ranges@) is Some),
        r is Some ==> r.unwrap() as int == spec_duration(ranges@).unwrap(),
{
    let start = start_time_of(ranges);
    let end = end_time_of(ranges);
    match (start, end) {
        (Some(s), Some(e)) => {
            let d: i128 = if s >= e {
                (s as i128) - (e as i128)
            } else {
                (e as i128) - (s as i128)
            };
            Some(d as u64)
        },
        _ => None,
    }
}

proof fn lemma_i64_mul_in_i128(a: int, b: int)
    requires
        i64::MIN as int <= a <= i64::MAX as int,
        i64::MIN as int <= b <= i64::MAX as int,
    ensures
        -85070591730234615865843651857942052864int <= a * b
            <= 85070591730234615865843651857942052864int,
{
    assert(-85070591730234615865843651857942052864int <= a * b
        <= 85070591730234615865843651857942052864int) by (nonlinear_arith)
        requires
            -0x8000000000000000int <= a <= 0x7fffffffffffffffint,
            -0x8000000000000000int <= b <= 0x7fffffffffffffffint,
    ;
}

/// One free step of the cursor: `time + delta_time * speed`, negated when
/// ping-pong travels backwards. Wide intermediate arithmetic keeps every
/// partial product exact; only the final value must fit the cursor's `i64`.
fn step_time(time: i64, delta_time: i64, speed: i64, negate: bool) -> (r: i64)
    requires
        i64::MIN as int <= time + (if negate {
            -((delta_time as int) * (speed as int))
        } else {
            (delta_time as int) * (speed as int)
        }) <= i64::MAX as int,
    ensures
        r as int == time + (if negate {
            -((delta_time as int) * (speed as int))
        } else {
            (delta_time as int) * (speed as int)
        }),
{
    proof {
        lemma_i64_mul_in_i128(delta_time as int, speed as int);
    }
    let prod: i128 = (delta_time as i128) * (speed as i128);
    let signed: i128 = if negate {
        -prod
    } else {
        prod
    };
    let next: i128 = (time as i128) + signed;
    next as i64
}

/// One tick of the playback engine over the given per-track key-time ranges:
/// a no-op when the track-set is empty or paused; otherwise the cursor moves
/// by `delta_time * speed` (direction-adjusted under ping-pong) unless the
/// previous tick left it past its boundary, in which case the configured
/// policy freezes it, snaps it to the restart point, or reverses the
/// ping-pong direction and snaps it to the near boundary. Only `time` and
/// `pong` change.
pub fn advance_state(ranges: &Vec<Option<(i64, i64)>>, st: &mut PlaybackState, delta_time: i64)
    requires
        advance_fits(ranges@, *old(st), delta_time),
    ensures
        final(st).loop_style == old(st).loop_style,
        final(st).speed == old(st).speed,
        final(st).paused == old(st).paused,
        final(st).time as int == spec_advance_time(ranges@, *old(st), delta_time),
        final(st).pong == spec_advance_pong(ranges@, *old(st)),
{
    if is_empty_of(ranges) || st.paused {
        return ;
    }
    proof {
        lemma_start_end_some_iff(ranges@);
    }
    let start_opt = start_time_of(ranges);
    let end_opt = end_time_of(ranges);
    let (start, end) = match (start_opt, end_opt) {
        (Some(s), Some(e)) => (s, e),
        _ => vstd::pervasive::unreached(),
    };
    let reversed = st.speed < 0;
    let past_boundary = match (reversed, st.pong) {
        (true, true) => end < st.time,
        (true, false) => start > st.time,
        (false, true) => start > st.time,
        (false, false) => end < st.time,
    };
    let loop_time_start = if reversed {
        end
    } else {
        start
    };
    let mut new_pong = st.pong;
    match st.loop_style {
        LoopStyle::Once => {
            if !past_boundary {
                st.time = step_time(st.time, delta_time, st.speed, false);
            }
        },
        LoopStyle::Loop => {
            if !past_boundary {
                st.time = step_time(st.time, delta_time, st.speed, false);
            } else {
                st.time = loop_time_start;
            }
        },
        LoopStyle::PingPong => {
            if !past_boundary {
                st.time = step_time(st.time, delta_time, st.speed, st.pong);
            } else {
                new_pong = !st.pong;
                st.time = if new_pong {
                    end
                } else {
                    start
                };
            }
        },
    }
    st.pong = new_pong;
}

/// The track-set contract: anything that owns a group of tracks plus shared
/// playback state can be driven by the engine. An implementor exposes its
/// per-track key-time ranges and its state, both as executable values and as
/// the specification views `key_ranges` / `state` that every contract below
/// is phrased over. The engine ticks it with `advance`, which mutates only
/// the cursor and the ping-pong flag.
pub trait SplineGroup: Sized {
    /// The per-track (first, last) key-time ranges the engine reads.
    spec fn key_ranges(&self) -> Seq<Option<(i64, i64)>>;

    /// The shared playback state.
    spec fn state(&self) -> PlaybackState;

    /// The (first, last) key-time range of each owned track, front = the
    /// track's earliest key, back = its latest.
    fn spline_key_times(&self) -> (r: Vec<Option<(i64, i64)>>)
        ensures
            r@ == self.key_ranges(),
    ;

    fn loop_style(&self) -> (r: LoopStyle)
        ensures
            r == self.state().loop_style,
    ;

    fn set_loop_style(&mut self, loop_style: LoopStyle)
        ensures
            final(self).key_ranges() == old(self).key_ranges(),
            final(self).state() == (PlaybackState { loop_style, ..old(self).state() }),
    ;

    fn time(&self) -> (r: i64)
        ensures
            r == self.state().time,
    ;

    fn set_time(&mut self, time: i64)
        ensures
            final(self).key_ranges() == old(self).key_ranges(),
            final(self).state() == (PlaybackState { time, ..old(self).state() }),
    ;

    fn speed(&self) -> (r: i64)
        ensures
            r == self.state().speed,
    ;

    fn set_speed(&mut self, speed: i64)
        ensures
            final(self).key_ranges() == old(self).key_ranges(),
            final(self).state() == (PlaybackState { speed, ..old(self).state() }),
    ;

    fn paused(&self) -> (r: bool)
        ensures
            r == self.state().paused,
    ;

    fn set_paused(&mut self, paused: bool)
        ensures
            final(self).key_ranges() == old(self).key_ranges(),
            final(self).state() == (PlaybackState { paused, ..old(self).state() }),
    ;

    fn pong(&self) -> (r: bool)
        ensures
            r == self.state().pong,
    ;

    fn set_pong(&mut self, pong: bool)
        ensures
            final(self).key_ranges() == old(self).key_ranges(),
            final(self).state() == (PlaybackState { pong, ..old(self).state() }),
    ;

    /// True iff every owned track has no keys.
    fn is_empty(&self) -> (r: bool)
        ensures
            r == group_is_empty(self.key_ranges()),
    ;

    /// Earliest first-key time over all tracks; `None` iff the track-set is
    /// empty.
    fn start_time(&self) -> (r: Option<i64>)
        ensures
            r == spec_start_time(self.key_ranges()),
    ;

    /// Latest last-key time over all tracks; `None` iff the track-set is
    /// empty.
    fn end_time(&self) -> (r: Option<i64>)
        ensures
            r == spec_end_time(self.key_ranges()),
    ;

    /// Absolute difference between start and end time; `None` iff the
    /// track-set is empty.
    fn duration(&self) -> (r: Option<u64>)
        ensures
            (r is Some) <==> (spec_duration(self.key_ranges()) is Some),
            r is Some ==> r.unwrap() as int == spec_duration(self.key_ranges()).unwrap(),
    ;

    /// One tick: move the cursor by `delta_time * speed` under the loop
    /// policy, exactly as `spec_advance_time` / `spec_advance_pong` state.
    /// A no-op while paused or while every track is empty; mutates only
    /// `time` and `pong`.
    fn advance(&mut self, delta_time: i64)
        requires
            advance_fits(old(self).key_ranges(), old(self).state(), delta_time),
        ensures
            final(self).key_ranges() == old(self).key_ranges(),
            final(self).state().loop_style == old(self).state().loop_style,
            final(self).state().speed == old(self).state().speed,
            final(self).state().paused == old(self).state().paused,
            final(self).state().time as int == spec_advance_time(
                old(self).key_ranges(),
                old(self).state(),
                delta_time,
            ),
            final(self).state().pong == spec_advance_pong(old(self).key_ranges(), old(self).state()),
    ;

    /// Set the pause flag; `time` and `pong` are untouched.
    fn pause(&mut self)
        ensures
            final(self).key_ranges() == old(self).key_ranges(),
            final(self).state() == (PlaybackState { paused: true, ..old(self).state() }),
    ;

    /// Clear the pause flag; `time` and `pong` are untouched.
    fn play(&mut self)
        ensures
            final(self).key_ranges() == old(self).key_ranges(),
            final(self).state() == (PlaybackState { paused: false, ..old(self).state() }),
    ;

    /// Invert the pause flag; `time` and `pong` are untouched.
    fn toggle_pause(&mut self)
        ensures
            final(self).key_ranges() == old(self).key_ranges(),
            final(self).state() == (PlaybackState {
                paused: !old(self).state().paused,
                ..old(self).state()
            }),
    ;
}

} // verus!
