use vstd::prelude::*;

verus! {

/// The key-time sequence of one curve track, in the track's own key order
/// (callers supply keys sorted by ascending time; this is not enforced, and
/// the engine reads the first and last entry as the track's range either
/// way). The values between the keys and their interpolation live with the
/// curve store that samples the track; the engine only needs these times.
pub struct Track {
    pub key_times: Vec<i64>,
}

impl View for Track {
    type V = Seq<i64>;

    open spec fn view(&self) -> Seq<i64> {
        self.key_times@
    }
}

/// The (first, last) key-time pair a track contributes to the engine's
/// boundary scan; `None` for a track without keys.
pub open spec fn track_range(times: Seq<i64>) -> Option<(i64, i64)> {
    if times.len() == 0 {
        None
    } else {
        Some((times.first(), times.last()))
    }
}

impl Track {
    /// A track with no keys.
    pub fn new() -> (r: Track)
        ensures
            r@ == Seq::<i64>::empty(),
    {
        Track { key_times: Vec::new() }
    }

    /// Append one key time at the back of the track.
    pub fn push_key_time(&mut self, t: i64)
        ensures
            final(self)@ == old(self)@.push(t),
    {
        self.key_times.push(t);
    }

    /// The (first, last) key-time pair of this track, `None` when it has no
    /// keys.
    pub fn key_range(&self) -> (r: Option<(i64, i64)>)
        ensures
            r == track_range(self@),
    {
        if self.key_times.len() == 0 {
            None
        } else {
            Some((self.key_times[0], self.key_times[self.key_times.len() - 1]))
        }
    }
}

} // verus!
