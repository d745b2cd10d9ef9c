//! Panel geometry: root anchors, the horizontal spawn span, and the
//! circle-overlap predicate the placement oracle tests against.

use vstd::prelude::*;
use crate::config::{
    ARENA_WIDTH_FRAC_2, COORD_BOUND, LEFT_ROOT_X, RIGHT_ROOT_X, WORKER_BALL_DIAMETER,
};
use crate::participant::PanelRootSide;

verus! {

/// World-space x coordinate of a panel root's anchor.
pub open spec fn spec_root_x(side: PanelRootSide) -> i64 {
    match side {
        PanelRootSide::Left => LEFT_ROOT_X,
        PanelRootSide::Right => RIGHT_ROOT_X,
    }
}

/// Returns the fixed world-space anchor of the given panel side.
pub fn root_x(side: PanelRootSide) -> (x: i64)
    ensures
        x == spec_root_x(side),
{
    match side {
        PanelRootSide::Left => LEFT_ROOT_X,
        PanelRootSide::Right => RIGHT_ROOT_X,
    }
}

/// Whether a panel-local x coordinate lies in the horizontal span the
/// placement oracle samples from.
pub open spec fn in_span(x: i64) -> bool {
    -ARENA_WIDTH_FRAC_2 <= x < ARENA_WIDTH_FRAC_2
}

/// Whether a coordinate is small enough for squared-distance arithmetic
/// to stay inside `i64`.
pub open spec fn coord_in_bounds(v: i64) -> bool {
    -COORD_BOUND <= v <= COORD_BOUND
}

/// Whether two worker-ball-sized circles centred at the given points
/// overlap: their centre distance is below one ball diameter.
pub open spec fn circles_overlap(x1: int, y1: int, x2: int, y2: int) -> bool {
    (x2 - x1) * (x2 - x1) + (y2 - y1) * (y2 - y1)
        < WORKER_BALL_DIAMETER * WORKER_BALL_DIAMETER
}

/// Tests whether two worker-ball-sized circles overlap.
pub fn circles_overlap_at(x1: i64, y1: i64, x2: i64, y2: i64) -> (r: bool)
    requires
        coord_in_bounds(x1),
        coord_in_bounds(y1),
        coord_in_bounds(x2),
        coord_in_bounds(y2),
    ensures
        r == circles_overlap(x1 as int, y1 as int, x2 as int, y2 as int),
{
    let dx: i64 = x2 - x1;
    let dy: i64 = y2 - y1;
    proof {
        assert(0 <= (dx as int) * (dx as int) <= 4_000_000_000_000) by (nonlinear_arith)
            requires
                -2_000_000 <= dx as int <= 2_000_000,
        ;
        assert(0 <= (dy as int) * (dy as int) <= 4_000_000_000_000) by (nonlinear_arith)
            requires
                -2_000_000 <= dy as int <= 2_000_000,
        ;
    }
    dx * dx + dy * dy < WORKER_BALL_DIAMETER * WORKER_BALL_DIAMETER
}

} // verus!
