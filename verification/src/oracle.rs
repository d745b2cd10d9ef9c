//! The placement oracle: rejection sampling of non-overlapping spawn
//! positions at the top of a panel.
//!
//! Each draw is uniform over the panel's horizontal span; a draw is
//! accepted when a worker-ball-sized shape centred at the spawn height
//! overlaps no live ball.  The population cap keeps the panel far from
//! saturation, so the loop runs with an explicit attempt cap and treats
//! exhaustion as a logic error surfaced to the caller, not as a
//! recoverable condition.

use vstd::prelude::*;
use crate::config::{ARENA_WIDTH_FRAC_2, PLACEMENT_MAX_ATTEMPTS, WORKER_BALL_DIAMETER,
    WORKER_BALL_SPAWN_Y};
use crate::geometry::{in_span, root_x, spec_root_x};
use crate::participant::PanelRootSide;
use crate::rng::sample_uniform;
use crate::world::{balls_wf, is_placement_clear, placement_clear, WorkerBall};

verus! {

/// The error of an exhausted placement loop: under the configured
/// population cap this is a starvation bug, not a runtime fallback
/// path.
#[derive(Clone, Copy, Debug, PartialEq, Eq, Structural)]
pub struct PlacementExhausted;

/// Whether a ball spawned at panel-local `local_x` on the given side
/// overlaps no ball of the population: the oracle's acceptance test.
pub open spec fn spawn_point_clear(
    balls: Seq<WorkerBall>,
    side: PanelRootSide,
    local_x: i64,
) -> bool {
    placement_clear(balls, spec_root_x(side) + local_x, WORKER_BALL_SPAWN_Y as int)
}

/// Draws panel-local x coordinates until one puts a worker-ball-sized
/// shape at spawn height that overlaps no live ball, up to the attempt
/// cap.  Whatever the draws, a returned coordinate lies in the panel's
/// span and its spawn point is clear; on an empty panel every draw is
/// accepted, so the first attempt succeeds.
pub fn find_spawn_x(balls: &Vec<WorkerBall>, side: PanelRootSide) -> (r: Option<i64>)
    requires
        balls_wf(balls@),
    ensures
        match r {
            Some(x) => in_span(x) && spawn_point_clear(balls@, side, x),
            None => true,
        },
        balls@.len() == 0 ==> r is Some,
{
    let rx = root_x(side);
    let mut attempt: usize = 0;
    while attempt < PLACEMENT_MAX_ATTEMPTS
        invariant
            balls_wf(balls@),
            rx == spec_root_x(side),
            attempt > 0 ==> balls@.len() > 0,
        decreases PLACEMENT_MAX_ATTEMPTS - attempt,
    {
        let x = sample_uniform(-ARENA_WIDTH_FRAC_2, ARENA_WIDTH_FRAC_2);
        if is_placement_clear(balls, rx + x, WORKER_BALL_SPAWN_Y) {
            return Some(x);
        }
        attempt += 1;
    }
    None
}

/// Paired placement: two coordinates drawn for one panel under the
/// joint constraint that they differ by more than one ball diameter;
/// on a violation both draws are discarded and the pair is retried.
pub fn find_spawn_pair(balls: &Vec<WorkerBall>, side: PanelRootSide) -> (r: Option<(i64, i64)>)
    requires
        balls_wf(balls@),
    ensures
        match r {
            Some(p) => in_span(p.0) && in_span(p.1) && spawn_point_clear(balls@, side, p.0)
                && spawn_point_clear(balls@, side, p.1) && (if p.0 >= p.1 {
                p.0 - p.1
            } else {
                p.1 - p.0
            }) > WORKER_BALL_DIAMETER,
            None => true,
        },
{
    let mut attempt: usize = 0;
    while attempt < PLACEMENT_MAX_ATTEMPTS
        invariant
            balls_wf(balls@),
        decreases PLACEMENT_MAX_ATTEMPTS - attempt,
    {
        let xa = match find_spawn_x(balls, side) {
            Some(x) => x,
            None => { return None; },
        };
        let xb = match find_spawn_x(balls, side) {
            Some(x) => x,
            None => { return None; },
        };
        let diff = if xa >= xb {
            xa - xb
        } else {
            xb - xa
        };
        if diff > WORKER_BALL_DIAMETER {
            return Some((xa, xb));
        }
        attempt += 1;
    }
    None
}

} // verus!
