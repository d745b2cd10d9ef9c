//! Planning of one spawn round for one panel: which of the panel's two
//! participants get a ball this tick, and where the placement oracle
//! put each one.
//!
//! Planning only reads the world; the planned placements are applied to
//! the world and the trail pool afterwards, so a failed placement
//! leaves everything untouched.

use vstd::prelude::*;
use crate::config::{WORKER_BALL_DIAMETER, WORKER_BALL_SPAWN_Y};
use crate::geometry::{circles_overlap, in_span, spec_root_x};
use crate::oracle::{find_spawn_pair, find_spawn_x, spawn_point_clear, PlacementExhausted};
use crate::participant::{PanelRootSide, Participant};
use crate::world::{balls_wf, placement_clear, WorkerBall};

verus! {

/// One placement decided by a spawn round: a participant and the
/// panel-local x coordinate the oracle accepted for its new ball.
#[derive(Clone, Copy, Debug, PartialEq, Eq, Structural)]
pub struct PlannedSpawn {
    pub participant: Participant,
    pub local_x: i64,
}

/// The participants of one panel owed a ball this round: its survivors,
/// first partner first.
pub open spec fn owed_pair(pa: Participant, pb: Participant, alive_a: bool, alive_b: bool) -> Seq<
    Participant,
> {
    (if alive_a {
        seq![pa]
    } else {
        Seq::<Participant>::empty()
    }) + (if alive_b {
        seq![pb]
    } else {
        Seq::<Participant>::empty()
    })
}

/// What a spawn round plans for one panel: exactly the panel's
/// survivors get a ball, in order; every placement is inside the span
/// and clear of the live population; and two placements of the round
/// are more than a ball diameter apart.
pub open spec fn panel_plan_ok(
    plan: Seq<PlannedSpawn>,
    balls: Seq<WorkerBall>,
    pa: Participant,
    pb: Participant,
    alive_a: bool,
    alive_b: bool,
) -> bool {
    &&& plan.map_values(|e: PlannedSpawn| e.participant) == owed_pair(pa, pb, alive_a, alive_b)
    &&& forall|i: int|
        0 <= i < plan.len() ==> in_span((#[trigger] plan[i]).local_x) && spawn_point_clear(
            balls,
            PanelRootSide::spec_for_participant(plan[i].participant),
            plan[i].local_x,
        )
    &&& forall|i: int, j: int|
        0 <= i < j < plan.len() ==> (if (#[trigger] plan[i]).local_x >= (#[trigger] plan[j]).local_x {
            plan[i].local_x - plan[j].local_x
        } else {
            plan[j].local_x - plan[i].local_x
        }) > WORKER_BALL_DIAMETER
}

/// Plans one panel's share of a spawn round from the liveness
/// snapshot: nothing if both participants are dead, a single placement
/// for a lone survivor, a paired placement with the spacing constraint
/// if both are alive.  Only an exhausted placement loop fails, so a
/// panel with no survivor never does.
pub fn plan_panel(
    balls: &Vec<WorkerBall>,
    pa: Participant,
    pb: Participant,
    alive_a: bool,
    alive_b: bool,
) -> (r: Result<Vec<PlannedSpawn>, PlacementExhausted>)
    requires
        balls_wf(balls@),
        PanelRootSide::spec_for_participant(pa) == PanelRootSide::spec_for_participant(pb),
    ensures
        match r {
            Ok(plan) => panel_plan_ok(plan@, balls@, pa, pb, alive_a, alive_b),
            Err(_) => alive_a || alive_b,
        },
{
    let mut plan: Vec<PlannedSpawn> = Vec::new();
    let side = PanelRootSide::for_participant(pa);
    if alive_a && alive_b {
        match find_spawn_pair(balls, side) {
            Some(pair) => {
                plan.push(PlannedSpawn { participant: pa, local_x: pair.0 });
                plan.push(PlannedSpawn { participant: pb, local_x: pair.1 });
            },
            None => { return Err(PlacementExhausted); },
        }
    } else if alive_a {
        match find_spawn_x(balls, side) {
            Some(x) => { plan.push(PlannedSpawn { participant: pa, local_x: x }); },
            None => { return Err(PlacementExhausted); },
        }
    } else if alive_b {
        match find_spawn_x(balls, side) {
            Some(x) => { plan.push(PlannedSpawn { participant: pb, local_x: x }); },
            None => { return Err(PlacementExhausted); },
        }
    }
    proof {
        assert(plan@.map_values(|e: PlannedSpawn| e.participant) =~= owed_pair(
            pa,
            pb,
            alive_a,
            alive_b,
        ));
    }
    Ok(plan)
}

/// The balls a plan spawns, in order, with fresh ids counted from
/// `base_id`.
pub open spec fn spec_spawn_seq(plan: Seq<PlannedSpawn>, base_id: u64) -> Seq<WorkerBall> {
    Seq::new(
        plan.len(),
        |i: int|
            WorkerBall::spec_spawned(
                (base_id + i) as u64,
                plan[i].participant,
                plan[i].local_x,
            ),
    )
}

/// No overlap at spawn time: the balls of a valid panel plan are
/// pairwise non-overlapping at their spawn points, and each spawn
/// point is clear of every pre-existing ball — by the same
/// shape-intersection predicate the oracle samples against.
pub proof fn lemma_spawn_round_no_overlap(
    plan: Seq<PlannedSpawn>,
    balls: Seq<WorkerBall>,
    base_id: u64,
    pa: Participant,
    pb: Participant,
    alive_a: bool,
    alive_b: bool,
)
    requires
        panel_plan_ok(plan, balls, pa, pb, alive_a, alive_b),
        PanelRootSide::spec_for_participant(pa) == PanelRootSide::spec_for_participant(pb),
        base_id + plan.len() <= u64::MAX,
    ensures
        forall|i: int, j: int|
            0 <= i < j < plan.len() ==> !circles_overlap(
                (#[trigger] spec_spawn_seq(plan, base_id)[i]).x as int,
                spec_spawn_seq(plan, base_id)[i].y as int,
                (#[trigger] spec_spawn_seq(plan, base_id)[j]).x as int,
                spec_spawn_seq(plan, base_id)[j].y as int,
            ),
        forall|i: int|
            0 <= i < plan.len() ==> placement_clear(
                balls,
                (#[trigger] spec_spawn_seq(plan, base_id)[i]).x as int,
                spec_spawn_seq(plan, base_id)[i].y as int,
            ),
{
    assert forall|i: int, j: int| 0 <= i < j < plan.len() implies !circles_overlap(
        (#[trigger] spec_spawn_seq(plan, base_id)[i]).x as int,
        spec_spawn_seq(plan, base_id)[i].y as int,
        (#[trigger] spec_spawn_seq(plan, base_id)[j]).x as int,
        spec_spawn_seq(plan, base_id)[j].y as int,
    ) by {
        let bi = spec_spawn_seq(plan, base_id)[i];
        let bj = spec_spawn_seq(plan, base_id)[j];
        // the two participants sit on the same panel, so both world
        // coordinates share the panel's root anchor
        assert(plan.map_values(|e: PlannedSpawn| e.participant).len() == plan.len());
        assert(plan[i].participant == plan.map_values(|e: PlannedSpawn| e.participant)[i]);
        assert(plan[j].participant == plan.map_values(|e: PlannedSpawn| e.participant)[j]);
        assert(PanelRootSide::spec_for_participant(plan[i].participant)
            == PanelRootSide::spec_for_participant(plan[j].participant)) by {
            let owed = owed_pair(pa, pb, alive_a, alive_b);
            if alive_a && alive_b {
                assert(owed =~= seq![pa, pb]);
            } else if alive_a {
                assert(owed =~= seq![pa]);
            } else if alive_b {
                assert(owed =~= seq![pb]);
            }
            assert(owed[i] == pa || owed[i] == pb);
            assert(owed[j] == pa || owed[j] == pb);
        }
        let d = bj.x as int - bi.x as int;
        assert(d == plan[j].local_x - plan[i].local_x);
        assert(d > WORKER_BALL_DIAMETER || d < -WORKER_BALL_DIAMETER);
        assert(d * d > WORKER_BALL_DIAMETER * WORKER_BALL_DIAMETER) by (nonlinear_arith)
            requires
                d > WORKER_BALL_DIAMETER || d < -WORKER_BALL_DIAMETER,
                WORKER_BALL_DIAMETER == 10,
        ;
        assert(bi.y == bj.y);
        let dy = bj.y as int - bi.y as int;
        assert(dy == 0);
        assert(dy * dy == 0) by (nonlinear_arith)
            requires
                dy == 0,
        ;
    }
}

} // verus!
