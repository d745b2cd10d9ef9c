//! The simulated world of the two panels: the panel roots, the static
//! trigger zones, and the population of worker balls.
//!
//! Positions are world-space integer coordinates.  The physics engine
//! owns the motion of the balls between ticks; its updates enter the
//! model through [`PanelWorld::set_ball_motion`], and external systems
//! may remove a ball at any time through [`PanelWorld::despawn_ball`].

use vstd::prelude::*;
use crate::config::{COORD_BOUND, WORKER_BALL_SPAWN_Y};
use crate::events::TriggerType;
use crate::geometry::{
    circles_overlap, circles_overlap_at, coord_in_bounds, in_span, root_x, spec_root_x,
};
use crate::participant::{PanelRootSide, Participant};

verus! {

/// A dynamic falling ball owned by one participant, located in the panel
/// that serves its owner.  The collision shape (a fixed-radius circle),
/// the restitution coefficient and the gravity multiplier are the fixed
/// configuration constants and are applied by the physics layer.
#[derive(Clone, Copy, Debug, PartialEq, Eq, Structural)]
pub struct WorkerBall {
    /// World-assigned identity, unique among all entities of the world.
    pub id: u64,
    /// The participant on whose behalf the ball was spawned.
    pub participant: Participant,
    /// World-space horizontal position.
    pub x: i64,
    /// World-space vertical position.
    pub y: i64,
    /// Horizontal velocity.
    pub vx: i64,
    /// Vertical velocity.
    pub vy: i64,
}

impl WorkerBall {
    /// Positions small enough for squared-distance arithmetic.
    pub open spec fn wf(self) -> bool {
        coord_in_bounds(self.x) && coord_in_bounds(self.y)
    }

    /// The panel side a ball belongs to, given by its owner.
    pub open spec fn side(self) -> PanelRootSide {
        PanelRootSide::spec_for_participant(self.participant)
    }

    /// The state of a ball freshly placed at panel-local `local_x`: at
    /// spawn height, at rest.
    pub open spec fn spec_spawned(id: u64, p: Participant, local_x: i64) -> WorkerBall {
        WorkerBall {
            id,
            participant: p,
            x: (spec_root_x(PanelRootSide::spec_for_participant(p)) + local_x) as i64,
            y: WORKER_BALL_SPAWN_Y,
            vx: 0,
            vy: 0,
        }
    }

    /// Builds a ball freshly placed at panel-local `local_x` on its
    /// owner's panel.
    pub fn new(id: u64, p: Participant, local_x: i64) -> (ball: WorkerBall)
        requires
            in_span(local_x),
        ensures
            ball == WorkerBall::spec_spawned(id, p, local_x),
            ball.wf(),
    {
        let side = PanelRootSide::for_participant(p);
        WorkerBall {
            id,
            participant: p,
            x: root_x(side) + local_x,
            y: WORKER_BALL_SPAWN_Y,
            vx: 0,
            vy: 0,
        }
    }
}

/// A static sensor volume at a fixed offset within its panel, classified
/// by a [`TriggerType`].  Never created or destroyed after setup.
#[derive(Clone, Copy, Debug, PartialEq, Eq, Structural)]
pub struct TriggerZone {
    /// World-assigned identity, unique among all entities of the world.
    pub id: u64,
    /// The panel the zone sits in.
    pub side: PanelRootSide,
    /// Panel-local horizontal offset of the zone's centre.
    pub x_offset: i64,
    /// The gameplay classification the zone emits on contact.
    pub trigger_type: TriggerType,
}

/// Marker for a panel root, holding the side it anchors.  Exactly one
/// root per side exists; [`PanelWorld::wf`] enforces it.
#[derive(Clone, Copy, Debug, PartialEq, Eq, Structural)]
pub struct PanelRoot(pub PanelRootSide);

/// All balls of a population are well formed.
pub open spec fn balls_wf(balls: Seq<WorkerBall>) -> bool {
    forall|i: int| 0 <= i < balls.len() ==> (#[trigger] balls[i]).wf()
}

/// No two balls of the population share an id.
pub open spec fn ball_ids_distinct(balls: Seq<WorkerBall>) -> bool {
    forall|i: int, j: int| 0 <= i < j < balls.len() ==> balls[i].id != balls[j].id
}

/// No two zones of the set share an id.
pub open spec fn zone_ids_distinct(zones: Seq<TriggerZone>) -> bool {
    forall|i: int, j: int| 0 <= i < j < zones.len() ==> zones[i].id != zones[j].id
}

/// The ball with the given id, if one is live.  Well defined as soon as
/// ids are distinct.
pub open spec fn spec_ball_lookup(balls: Seq<WorkerBall>, id: u64) -> Option<WorkerBall> {
    if exists|i: int| 0 <= i < balls.len() && balls[i].id == id {
        Some(balls[choose|i: int| 0 <= i < balls.len() && balls[i].id == id])
    } else {
        None
    }
}

/// The zone with the given id, if any.  Well defined as soon as ids are
/// distinct.
pub open spec fn spec_zone_lookup(zones: Seq<TriggerZone>, id: u64) -> Option<TriggerZone> {
    if exists|i: int| 0 <= i < zones.len() && zones[i].id == id {
        Some(zones[choose|i: int| 0 <= i < zones.len() && zones[i].id == id])
    } else {
        None
    }
}

/// Looks a ball up by entity id in a population with distinct ids.
pub fn ball_lookup(balls: &Vec<WorkerBall>, id: u64) -> (r: Option<WorkerBall>)
    requires
        ball_ids_distinct(balls@),
    ensures
        r == spec_ball_lookup(balls@, id),
{
    let mut i: usize = 0;
    while i < balls.len()
        invariant
            i <= balls@.len(),
            ball_ids_distinct(balls@),
            forall|j: int| 0 <= j < i ==> (#[trigger] balls@[j]).id != id,
        decreases balls@.len() - i,
    {
        if balls[i].id == id {
            proof {
                let bs = balls@;
                assert(0 <= i < bs.len() && bs[i as int].id == id);
                let j = choose|j: int| 0 <= j < bs.len() && bs[j].id == id;
                assert(bs[j].id == id && bs[i as int].id == id);
                assert(j == i as int);
            }
            return Some(balls[i]);
        }
        i += 1;
    }
    None
}

/// Looks a zone up by entity id in a zone set with distinct ids.
pub fn zone_lookup(zones: &Vec<TriggerZone>, id: u64) -> (r: Option<TriggerZone>)
    requires
        zone_ids_distinct(zones@),
    ensures
        r == spec_zone_lookup(zones@, id),
{
    let mut i: usize = 0;
    while i < zones.len()
        invariant
            i <= zones@.len(),
            zone_ids_distinct(zones@),
            forall|j: int| 0 <= j < i ==> (#[trigger] zones@[j]).id != id,
        decreases zones@.len() - i,
    {
        if zones[i].id == id {
            proof {
                let zs = zones@;
                assert(0 <= i < zs.len() && zs[i as int].id == id);
                let j = choose|j: int| 0 <= j < zs.len() && zs[j].id == id;
                assert(zs[j].id == id && zs[i as int].id == id);
                assert(j == i as int);
            }
            return Some(zones[i]);
        }
        i += 1;
    }
    None
}

/// Whether a worker-ball-sized circle at `(x, y)` overlaps the given
/// ball.
pub open spec fn ball_overlaps_point(b: WorkerBall, x: int, y: int) -> bool {
    circles_overlap(b.x as int, b.y as int, x, y)
}

/// The shape-intersection predicate of the placement oracle: a
/// worker-ball-sized circle at `(x, y)` overlaps none of the given
/// balls.  The query ranges over dynamic worker balls only; obstacles
/// and trigger zones are excluded by construction.
pub open spec fn placement_clear(balls: Seq<WorkerBall>, x: int, y: int) -> bool {
    forall|i: int| 0 <= i < balls.len() ==> !ball_overlaps_point(#[trigger] balls[i], x, y)
}

/// Tests the oracle's intersection predicate against the live ball
/// population.
pub fn is_placement_clear(balls: &Vec<WorkerBall>, x: i64, y: i64) -> (r: bool)
    requires
        balls_wf(balls@),
        coord_in_bounds(x),
        coord_in_bounds(y),
    ensures
        r == placement_clear(balls@, x as int, y as int),
{
    let mut i: usize = 0;
    while i < balls.len()
        invariant
            i <= balls@.len(),
            balls_wf(balls@),
            coord_in_bounds(x),
            coord_in_bounds(y),
            forall|j: int| 0 <= j < i ==> !ball_overlaps_point(#[trigger] balls@[j], x as int, y as int),
        decreases balls@.len() - i,
    {
        if circles_overlap_at(balls[i].x, balls[i].y, x, y) {
            return false;
        }
        i += 1;
    }
    true
}

/// The fixed trigger-zone layout of one panel, ids starting at `base`:
/// the multiply-by-four zone at the centre, a multiply-by-two zone one
/// fifth of the arena width to each side, and the burst-shot / charged-
/// shot zones two fifths out at the edges.
pub open spec fn side_zones(side: PanelRootSide, base: u64) -> Seq<TriggerZone> {
    seq![
        TriggerZone { id: base, side, x_offset: 0, trigger_type: TriggerType::Multiply(4) },
        TriggerZone {
            id: (base + 1) as u64,
            side,
            x_offset: (-52) as i64,
            trigger_type: TriggerType::Multiply(2),
        },
        TriggerZone {
            id: (base + 2) as u64,
            side,
            x_offset: 52,
            trigger_type: TriggerType::Multiply(2),
        },
        TriggerZone {
            id: (base + 3) as u64,
            side,
            x_offset: (-104) as i64,
            trigger_type: TriggerType::BurstShot,
        },
        TriggerZone {
            id: (base + 4) as u64,
            side,
            x_offset: 104,
            trigger_type: TriggerType::ChargedShot,
        },
    ]
}

/// The zone layout of the whole world at setup: five zones per panel,
/// left panel first.
pub open spec fn initial_zones() -> Seq<TriggerZone> {
    side_zones(PanelRootSide::Left, 0) + side_zones(PanelRootSide::Right, 5)
}

/// The world of both panels: the two roots, the ten trigger zones, and
/// the live worker balls.
pub struct PanelWorld {
    pub left_root: PanelRoot,
    pub right_root: PanelRoot,
    pub zones: Vec<TriggerZone>,
    pub balls: Vec<WorkerBall>,
    /// Source of fresh entity ids; every id in the world is below it.
    pub next_id: u64,
}

impl PanelWorld {
    /// Well-formedness: one root per side; every id taken from the
    /// fresh-id counter; ids pairwise distinct across zones and balls;
    /// ball positions in bounds.
    pub open spec fn wf(self) -> bool {
        &&& self.left_root.0 == PanelRootSide::Left
        &&& self.right_root.0 == PanelRootSide::Right
        &&& balls_wf(self.balls@)
        &&& forall|i: int| 0 <= i < self.zones@.len() ==> (#[trigger] self.zones@[i]).id < self.next_id
        &&& forall|i: int| 0 <= i < self.balls@.len() ==> (#[trigger] self.balls@[i]).id < self.next_id
        &&& zone_ids_distinct(self.zones@)
        &&& ball_ids_distinct(self.balls@)
        &&& forall|i: int, j: int|
            0 <= i < self.zones@.len() && 0 <= j < self.balls@.len()
                ==> self.zones@[i].id != self.balls@[j].id
    }

    /// Sets the world up: one root per side, the fixed trigger zones of
    /// both panels, and no balls.  Entity ids `0..10` go to the zones,
    /// so fresh ids start at `10`.
    pub fn new() -> (w: PanelWorld)
        ensures
            w.wf(),
            w.zones@ == initial_zones(),
            w.balls@ == Seq::<WorkerBall>::empty(),
            w.next_id == 10,
    {
        let mut zones: Vec<TriggerZone> = Vec::new();
        let left = PanelRootSide::Left;
        let right = PanelRootSide::Right;
        zones.push(TriggerZone { id: 0, side: left, x_offset: 0, trigger_type: TriggerType::Multiply(4) });
        zones.push(TriggerZone { id: 1, side: left, x_offset: -52, trigger_type: TriggerType::Multiply(2) });
        zones.push(TriggerZone { id: 2, side: left, x_offset: 52, trigger_type: TriggerType::Multiply(2) });
        zones.push(TriggerZone { id: 3, side: left, x_offset: -104, trigger_type: TriggerType::BurstShot });
        zones.push(TriggerZone { id: 4, side: left, x_offset: 104, trigger_type: TriggerType::ChargedShot });
        zones.push(TriggerZone { id: 5, side: right, x_offset: 0, trigger_type: TriggerType::Multiply(4) });
        zones.push(TriggerZone { id: 6, side: right, x_offset: -52, trigger_type: TriggerType::Multiply(2) });
        zones.push(TriggerZone { id: 7, side: right, x_offset: 52, trigger_type: TriggerType::Multiply(2) });
        zones.push(TriggerZone { id: 8, side: right, x_offset: -104, trigger_type: TriggerType::BurstShot });
        zones.push(TriggerZone { id: 9, side: right, x_offset: 104, trigger_type: TriggerType::ChargedShot });
        let w = PanelWorld {
            left_root: PanelRoot(left),
            right_root: PanelRoot(right),
            zones,
            balls: Vec::new(),
            next_id: 10,
        };
        proof {
            assert(w.zones@ =~= initial_zones());
            assert forall|i: int| 0 <= i < w.zones@.len() implies (#[trigger] w.zones@[i]).id
                == i as u64 by {
                assert(w.zones@ =~= initial_zones());
            }
        }
        w
    }

    /// Looks a zone up by entity id.
    pub fn zone_by_id(&self, id: u64) -> (r: Option<TriggerZone>)
        requires
            self.wf(),
        ensures
            r == spec_zone_lookup(self.zones@, id),
    {
        zone_lookup(&self.zones, id)
    }

    /// Looks a worker ball up by entity id.
    pub fn ball_by_id(&self, id: u64) -> (r: Option<WorkerBall>)
        requires
            self.wf(),
        ensures
            r == spec_ball_lookup(self.balls@, id),
    {
        ball_lookup(&self.balls, id)
    }

    /// Finds the position of the ball with the given id in the
    /// population, if it is live.
    pub fn ball_index_of(&self, id: u64) -> (r: Option<usize>)
        ensures
            match r {
                Some(i) => i < self.balls@.len() && self.balls@[i as int].id == id,
                None => forall|j: int|
                    0 <= j < self.balls@.len() ==> (#[trigger] self.balls@[j]).id != id,
            },
    {
        let mut i: usize = 0;
        while i < self.balls.len()
            invariant
                i <= self.balls@.len(),
                forall|j: int| 0 <= j < i ==> (#[trigger] self.balls@[j]).id != id,
            decreases self.balls@.len() - i,
        {
            if self.balls[i].id == id {
                return Some(i);
            }
            i += 1;
        }
        None
    }

    /// Spawns a fresh ball for `p` at panel-local `local_x` on its
    /// owner's panel and returns the new ball's id.
    pub fn spawn_ball(&mut self, p: Participant, local_x: i64) -> (id: u64)
        requires
            old(self).wf(),
            in_span(local_x),
            old(self).next_id < u64::MAX,
        ensures
            final(self).wf(),
            id == old(self).next_id,
            final(self).next_id == old(self).next_id + 1,
            final(self).balls@ == old(self).balls@.push(WorkerBall::spec_spawned(id, p, local_x)),
            final(self).zones@ == old(self).zones@,
            final(self).left_root == old(self).left_root,
            final(self).right_root == old(self).right_root,
    {
        let id = self.next_id;
        let ball = WorkerBall::new(id, p, local_x);
        self.balls.push(ball);
        self.next_id = id + 1;
        id
    }

    /// Removes the ball with the given id, if it is live.  Ball
    /// destruction is an external decision; this is its entry point into
    /// the model.
    pub fn despawn_ball(&mut self, id: u64) -> (removed: bool)
        requires
            old(self).wf(),
        ensures
            final(self).wf(),
            final(self).zones@ == old(self).zones@,
            final(self).next_id == old(self).next_id,
            final(self).left_root == old(self).left_root,
            final(self).right_root == old(self).right_root,
            removed ==> exists|i: int|
                0 <= i < old(self).balls@.len() && old(self).balls@[i].id == id
                    && final(self).balls@ == old(self).balls@.remove(i),
            !removed ==> final(self).balls@ == old(self).balls@ && forall|j: int|
                0 <= j < old(self).balls@.len() ==> (#[trigger] old(self).balls@[j]).id != id,
    {
        match self.ball_index_of(id) {
            Some(i) => {
                self.balls.remove(i);
                proof {
                    let ghost bs = self.balls@;
                    let ghost obs = old(self).balls@;
                    assert forall|k: int| 0 <= k < bs.len() implies (#[trigger] bs[k]).wf()
                        && bs[k].id < self.next_id by {
                        assert(bs[k] == if k < i { obs[k] } else { obs[k + 1] });
                    }
                    assert forall|k: int, l: int| 0 <= k < l < bs.len() implies bs[k].id
                        != bs[l].id by {
                        assert(bs[k] == if k < i { obs[k] } else { obs[k + 1] });
                        assert(bs[l] == if l < i { obs[l] } else { obs[l + 1] });
                    }
                    assert forall|k: int, l: int|
                        0 <= k < self.zones@.len() && 0 <= l < bs.len() implies self.zones@[k].id
                        != bs[l].id by {
                        assert(bs[l] == if l < i { obs[l] } else { obs[l + 1] });
                    }
                }
                true
            },
            None => false,
        }
    }

    /// Records the physics engine's update of one ball's position and
    /// velocity.
    pub fn set_ball_motion(&mut self, id: u64, x: i64, y: i64, vx: i64, vy: i64) -> (found: bool)
        requires
            old(self).wf(),
            coord_in_bounds(x),
            coord_in_bounds(y),
        ensures
            final(self).wf(),
            final(self).zones@ == old(self).zones@,
            final(self).next_id == old(self).next_id,
            final(self).left_root == old(self).left_root,
            final(self).right_root == old(self).right_root,
            found ==> exists|i: int|
                0 <= i < old(self).balls@.len() && old(self).balls@[i].id == id
                    && final(self).balls@ == old(self).balls@.update(
                    i,
                    (WorkerBall {
                        x,
                        y,
                        vx,
                        vy,
                        ..old(self).balls@[i]
                    }),
                ),
            !found ==> final(self).balls@ == old(self).balls@ && forall|j: int|
                0 <= j < old(self).balls@.len() ==> (#[trigger] old(self).balls@[j]).id != id,
    {
        match self.ball_index_of(id) {
            Some(i) => {
                let b = self.balls[i];
                self.balls.set(i, WorkerBall { x, y, vx, vy, ..b });
                true
            },
            None => false,
        }
    }
}

} // verus!
