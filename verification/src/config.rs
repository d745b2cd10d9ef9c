//! Fixed configuration of the panel simulation.
//!
//! All lengths are in integer world units; times are in milliseconds.

use vstd::prelude::*;

verus! {

/// Horizontal anchor of the left panel root.
pub const LEFT_ROOT_X: i64 = -500;
/// Horizontal anchor of the right panel root.
pub const RIGHT_ROOT_X: i64 = 500;

/// Full width of a panel's arena.
pub const ARENA_WIDTH: i64 = 260;
/// Half of the arena width; panel-local x coordinates range over
/// `-ARENA_WIDTH_FRAC_2 .. ARENA_WIDTH_FRAC_2`.
pub const ARENA_WIDTH_FRAC_2: i64 = 130;
/// A fifth of the arena width: the width of one trigger zone.
pub const ARENA_WIDTH_FRAC_5: i64 = 52;

/// Radius of a worker ball's circular collision shape.
pub const WORKER_BALL_RADIUS: i64 = 5;
/// Diameter of a worker ball.
pub const WORKER_BALL_DIAMETER: i64 = 10;
/// Height (panel-local y) at which worker balls spawn and at which idle
/// trails rest.
pub const WORKER_BALL_SPAWN_Y: i64 = 320;
/// Gravity multiplier configured on every worker ball.
pub const WORKER_BALL_GRAVITY_SCALE: i64 = 15;

/// Spawn rounds stop once the round counter reaches this cap.
pub const WORKER_BALL_COUNT_MAX: usize = 6;

/// Period of the repeating spawn timer.
pub const WORKER_BALL_SPAWN_TIMER_MS: u64 = 10_000;
/// Lifetime of the trailing visual effect; the spawn timer is
/// phase-shifted by this much so its first fire lines up with the trail
/// bookkeeping.
pub const TRAIL_LIFETIME_MS: u64 = 1_000;

/// Attempt cap of the rejection-sampling placement loop.  The population
/// cap keeps the panel far from saturation, so running out of attempts is
/// treated as a logic error rather than a recoverable condition.
pub const PLACEMENT_MAX_ATTEMPTS: usize = 64;

/// Bound on the coordinates this core accepts for a ball position; far
/// larger than the play-field, it only serves to keep squared-distance
/// arithmetic inside `i64`.
pub const COORD_BOUND: i64 = 1_000_000;

} // verus!
