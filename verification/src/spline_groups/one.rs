use vstd::prelude::*;

use crate::spline_group::LoopStyle;
use crate::spline_group::PlaybackState;
use crate::spline_group::SplineGroup;
use crate::spline_group::advance_state;
use crate::spline_group::duration_of;
use crate::spline_group::end_time_of;
use crate::spline_group::is_empty_of;
use crate::spline_group::start_time_of;
use crate::track::Track;
use crate::track::track_range;

verus! {

/// A track-set of exactly one track: the single track's key times plus the
/// shared playback state, driven through the `SplineGroup` contract. The
/// track's values and their interpolation belong to the curve store that
/// samples it; this group carries what the engine reads and mutates.
pub struct AnimationSplineOne {
    pub track: Track,
    pub loop_style: LoopStyle,
    pub time: i64,
    pub speed: i64,
    pub paused: bool,
    pub pong: bool,
}

impl Default for AnimationSplineOne {
    /// An empty track and the default state: `Once`, cursor at zero, unit
    /// forward speed, playing, ping-pong travelling forward.
    fn default() -> (r: Self)
        ensures
            r.track@ == Seq::<i64>::empty(),
            r.loop_style == LoopStyle::Once,
            r.time == 0,
            r.speed == 1,
            !r.paused,
            !r.pong,
    {
        AnimationSplineOne {
            track: Track::new(),
            loop_style: LoopStyle::Once,
            time: 0,
            speed: 1,
            paused: false,
            pong: false,
        }
    }
}

impl SplineGroup for AnimationSplineOne {
    open spec fn key_ranges(&self) -> Seq<Option<(i64, i64)>> {
        seq![track_range(self.track@)]
    }

    open spec fn state(&self) -> PlaybackState {
        PlaybackState {
            loop_style: self.loop_style,
            time: self.time,
            speed: self.speed,
            paused: self.paused,
            pong: self.pong,
        }
    }

    fn spline_key_times(&self) -> (r: Vec<Option<(i64, i64)>>) {
        let mut r: Vec<Option<(i64, i64)>> = Vec::new();
        r.push(self.track.key_range());
        proof {
            assert(r@ =~= seq![track_range(self.track@)]);
        }
        r
    }

    fn loop_style(&self) -> LoopStyle {
        self.loop_style
    }

    fn set_loop_style(&mut self, loop_style: LoopStyle) {
        self.loop_style = loop_style;
    }

    fn time(&self) -> i64 {
        self.time
    }

    fn set_time(&mut self, time: i64) {
        self.time = time;
    }

    fn speed(&self) -> i64 {
        self.speed
    }

    fn set_speed(&mut self, speed: i64) {
        self.speed = speed;
    }

    fn paused(&self) -> bool {
        self.paused
    }

    fn set_paused(&mut self, paused: bool) {
        self.paused = paused;
    }

    fn pong(&self) -> bool {
        self.pong
    }

    fn set_pong(&mut self, pong: bool) {
        self.pong = pong;
    }

    fn is_empty(&self) -> bool {
        let ranges = self.spline_key_times();
        is_empty_of(&ranges)
    }

    fn start_time(&self) -> Option<i64> {
        let ranges = self.spline_key_times();
        start_time_of(&ranges)
    }

    fn end_time(&self) -> Option<i64> {
        let ranges = self.spline_key_times();
        end_time_of(&ranges)
    }

    fn duration(&self) -> Option<u64> {
        let ranges = self.spline_key_times();
        duration_of(&ranges)
    }

    fn advance(&mut self, delta_time: i64)
        ensures
            final(self).track@ == old(self).track@,
    {
        let ranges = self.spline_key_times();
        let mut st = PlaybackState {
            loop_style: self.loop_style,
            time: self.time,
            speed: self.speed,
            paused: self.paused,
            pong: self.pong,
        };
        advance_state(&ranges, &mut st, delta_time);
        self.time = st.time;
        self.pong = st.pong;
    }

    fn pause(&mut self) {
        self.paused = true;
    }

    fn play(&mut self) {
        self.paused = false;
    }

    fn toggle_pause(&mut self) {
        self.paused = !self.paused;
    }
}

} // verus!
