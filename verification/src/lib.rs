//! A time-driven playback engine for groups of time-keyed curve tracks.
//!
//! A track-set bundles one or more tracks with one playback cursor, a signed
//! speed, a pause flag and a loop policy (once / loop / ping-pong). Each tick
//! moves the cursor by `delta_time * speed` and applies the policy at the
//! boundaries of the union of all tracks' key-time ranges. Times are
//! fixed-point: a count, in a unit the caller picks, held in an `i64`. Value
//! interpolation is the curve store's job, not this engine's: the engine only
//! reads each track's first and last key time.

pub mod laws;
pub mod spline_group;
pub mod spline_groups;
pub mod track;

pub use spline_group::LoopStyle;
pub use spline_group::PlaybackState;
pub use spline_group::SplineGroup;
pub use spline_groups::one::AnimationSplineOne;
pub use track::Track;
