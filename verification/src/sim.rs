//! The complete panel simulation and its per-tick systems.
//!
//! One tick runs, in order: the physics engine steps outside this
//! crate; trail positions update (so a ball removed earlier frees its
//! trail before this tick's spawner can reuse it); the spawner runs;
//! contact events feed the trigger translator and the zone-exit
//! recycler; a restart signal runs the restart coordinator and makes
//! the translator discard the tick's contact batch.

use vstd::prelude::*;
use crate::events::{ContactEvent, TriggerEvent};
use crate::geometry::{in_span, root_x, spec_root_x};
use crate::oracle::PlacementExhausted;
use crate::participant::{PanelRootSide, Participant, ParticipantColors, SurvivorMap};
use crate::plan::{panel_plan_ok, plan_panel, spec_spawn_seq, PlannedSpawn};
use crate::recycler::{recycle_contacts, recycled_shape};
use crate::spawner::WorkerBallSpawner;
use crate::trail::{
    active_link, has_idle, is_first_idle, lemma_update_all_links, spec_attach_step, spec_park_all,
    spec_update_all, Trail, TrailPool,
};
use crate::triggers::{translate_contacts, translated_events};
use crate::world::{PanelWorld, WorkerBall};

verus! {

/// The world position a planned spawn's trail starts at: the new
/// ball's spawn point.
pub open spec fn planned_world_x(e: PlannedSpawn) -> i64 {
    (spec_root_x(PanelRootSide::spec_for_participant(e.participant)) + e.local_x) as i64
}

/// The trail pool contents after attaching trails for a whole plan in
/// order, the new balls' ids counted from `base_id`.
pub open spec fn spec_attach_all(
    trails: Seq<Trail>,
    plan: Seq<PlannedSpawn>,
    base_id: u64,
    colors: ParticipantColors,
) -> Seq<Trail>
    decreases plan.len(),
{
    if plan.len() == 0 {
        trails
    } else {
        let front = spec_attach_all(trails, plan.drop_last(), base_id, colors);
        let e = plan.last();
        spec_attach_step(
            front,
            (base_id + plan.len() - 1) as u64,
            PanelRootSide::spec_for_participant(e.participant),
            colors.spec_color(e.participant),
            planned_world_x(e),
        )
    }
}

/// The whole simulation: the world of both panels, the spawner, and
/// the trail pool.
pub struct PanelSim {
    pub world: PanelWorld,
    pub spawner: WorkerBallSpawner,
    pub pool: TrailPool,
}

/// What the restart coordinator leaves behind, as one transaction:
/// every worker ball removed, the spawner back in its initial
/// phase-shifted state, every trail parked with the alternation
/// restarted from its fixed initial value — and nothing else touched.
pub open spec fn restart_post(pre: PanelSim, post: PanelSim) -> bool {
    &&& post.world.balls@ == Seq::<WorkerBall>::empty()
    &&& post.world.zones@ == pre.world.zones@
    &&& post.world.next_id == pre.world.next_id
    &&& post.world.left_root == pre.world.left_root
    &&& post.world.right_root == pre.world.right_root
    &&& post.spawner == WorkerBallSpawner::spec_initial()
    &&& post.pool.trails@ == spec_park_all(pre.pool.trails@)
    &&& post.pool.go_left == (pre.pool.trails@.len() % 2 == 1)
}

/// Restart idempotence: restarting twice in succession, with no tick
/// between, leaves exactly the observable state of a single restart —
/// no balls, the spawner initial, every trail parked on the same side
/// as before, the toggle unchanged.
pub proof fn lemma_restart_idempotent(a: PanelSim, b: PanelSim, c: PanelSim)
    requires
        restart_post(a, b),
        restart_post(b, c),
    ensures
        c.world.balls@ == b.world.balls@,
        c.world.zones@ == b.world.zones@,
        c.world.next_id == b.world.next_id,
        c.world.left_root == b.world.left_root,
        c.world.right_root == b.world.right_root,
        c.spawner == b.spawner,
        c.pool.trails@ == b.pool.trails@,
        c.pool.go_left == b.pool.go_left,
{
    assert(c.pool.trails@ =~= b.pool.trails@);
}

/// Applies one panel's spawn plan: for each planned placement, a fresh
/// ball enters the world and a trail is attached to it through the
/// pool's reuse-first policy.
fn apply_spawns(
    world: &mut PanelWorld,
    pool: &mut TrailPool,
    plan: &Vec<PlannedSpawn>,
    colors: &ParticipantColors,
)
    requires
        old(world).wf(),
        old(pool).wf(),
        forall|i: int| 0 <= i < plan@.len() ==> in_span((#[trigger] plan@[i]).local_x),
        old(world).next_id + plan@.len() <= u64::MAX,
        forall|i: int|
            0 <= i < old(pool).trails@.len() ==> match active_link(
                #[trigger] old(pool).trails@[i],
            ) {
                Some(id) => id < old(world).next_id,
                None => true,
            },
    ensures
        final(world).wf(),
        final(pool).wf(),
        final(world).balls@ == old(world).balls@ + spec_spawn_seq(plan@, old(world).next_id),
        final(world).next_id == old(world).next_id + plan@.len(),
        final(world).zones@ == old(world).zones@,
        final(world).left_root == old(world).left_root,
        final(world).right_root == old(world).right_root,
        final(pool).trails@ == spec_attach_all(
            old(pool).trails@,
            plan@,
            old(world).next_id,
            *colors,
        ),
        final(pool).go_left == old(pool).go_left,
        forall|i: int|
            0 <= i < final(pool).trails@.len() ==> match active_link(
                #[trigger] final(pool).trails@[i],
            ) {
                Some(id) => id < final(world).next_id,
                None => true,
            },
{
    let ghost base = old(world).next_id;
    let ghost obt = old(pool).trails@;
    let mut k: usize = 0;
    while k < plan.len()
        invariant
            world.wf(),
            pool.wf(),
            k <= plan@.len(),
            forall|i: int| 0 <= i < plan@.len() ==> in_span((#[trigger] plan@[i]).local_x),
            base + plan@.len() <= u64::MAX,
            base == old(world).next_id,
            obt == old(pool).trails@,
            world.next_id == base + k,
            world.balls@ == old(world).balls@ + spec_spawn_seq(plan@.take(k as int), base),
            world.zones@ == old(world).zones@,
            world.left_root == old(world).left_root,
            world.right_root == old(world).right_root,
            pool.trails@ == spec_attach_all(obt, plan@.take(k as int), base, *colors),
            pool.go_left == old(pool).go_left,
            forall|i: int|
                0 <= i < pool.trails@.len() ==> match active_link(#[trigger] pool.trails@[i]) {
                    Some(id) => id < world.next_id,
                    None => true,
                },
        decreases plan@.len() - k,
    {
        let e = plan[k];
        let ghost pre_balls = world.balls@;
        let ghost pre_trails = pool.trails@;
        let ghost pre_next = world.next_id;
        let id = world.spawn_ball(e.participant, e.local_x);
        let side = PanelRootSide::for_participant(e.participant);
        let color = colors.color(e.participant);
        let wx = root_x(side) + e.local_x;
        proof {
            assert forall|i: int| 0 <= i < pool.trails@.len() implies active_link(
                #[trigger] pool.trails@[i],
            ) != Some(id) by {
                assert(match active_link(pool.trails@[i]) {
                    Some(lid) => lid < pre_next,
                    None => true,
                });
            }
        }
        let idx = pool.attach(id, side, color, wx);
        proof {
            if has_idle(pre_trails, side) {
                assert(is_first_idle(pre_trails, side, idx as int));
                let j = choose|i: int| is_first_idle(pre_trails, side, i);
                assert(is_first_idle(pre_trails, side, j));
                assert(j == idx as int);
            }
            assert(pool.trails@ == spec_attach_step(pre_trails, id, side, color, wx));
            assert(plan@.take(k as int + 1).drop_last() =~= plan@.take(k as int));
            assert(plan@.take(k as int + 1).last() == plan@[k as int]);
            assert(wx == planned_world_x(plan@[k as int]));
            assert(id == (base + plan@.take(k as int + 1).len() - 1) as u64);
            assert(pool.trails@ == spec_attach_all(
                obt,
                plan@.take(k as int + 1),
                base,
                *colors,
            ));
            assert(world.balls@ =~= old(world).balls@ + spec_spawn_seq(
                plan@.take(k as int + 1),
                base,
            ));
        }
        k += 1;
    }
    proof {
        assert(plan@.take(plan@.len() as int) =~= plan@);
    }
}

impl PanelSim {
    /// Well-formedness of the whole: each part well formed, and every
    /// trail link an id the world has already handed out, so a fresh
    /// ball is never linked before its trail is attached.
    pub open spec fn wf(self) -> bool {
        &&& self.world.wf()
        &&& self.spawner.wf()
        &&& self.pool.wf()
        &&& forall|i: int|
            0 <= i < self.pool.trails@.len() ==> match active_link(
                #[trigger] self.pool.trails@[i],
            ) {
                Some(id) => id < self.world.next_id,
                None => true,
            }
    }

    /// Sets the simulation up: the fixed world, the phase-shifted
    /// spawner, an empty trail pool.
    pub fn new() -> (sim: PanelSim)
        ensures
            sim.wf(),
            sim.world.balls@ == Seq::<WorkerBall>::empty(),
            sim.world.zones@ == crate::world::initial_zones(),
            sim.spawner == WorkerBallSpawner::spec_initial(),
            sim.pool.trails@ == Seq::<Trail>::empty(),
            sim.pool.go_left == false,
    {
        PanelSim {
            world: PanelWorld::new(),
            spawner: WorkerBallSpawner::new(),
            pool: TrailPool::new(),
        }
    }

    /// The per-frame trail update, run before spawning: every active
    /// trail follows its ball, trails of vanished balls park on
    /// alternating sides.
    pub fn update_trails(&mut self)
        requires
            old(self).wf(),
        ensures
            final(self).wf(),
            final(self).world.balls@ == old(self).world.balls@,
            final(self).world.zones@ == old(self).world.zones@,
            final(self).world.next_id == old(self).world.next_id,
            final(self).world.left_root == old(self).world.left_root,
            final(self).world.right_root == old(self).world.right_root,
            final(self).spawner == old(self).spawner,
            (final(self).pool.trails@, final(self).pool.go_left) == spec_update_all(
                old(self).pool.trails@,
                old(self).world.balls@,
                old(self).pool.go_left,
            ),
    {
        let ghost ot = self.pool.trails@;
        let ghost og = self.pool.go_left;
        self.pool.update_all(&self.world.balls);
        proof {
            lemma_update_all_links(ot, self.world.balls@, og);
            assert forall|i: int| 0 <= i < self.pool.trails@.len() implies match active_link(
                #[trigger] self.pool.trails@[i],
            ) {
                Some(id) => id < self.world.next_id,
                None => true,
            } by {
                if active_link(self.pool.trails@[i]) is Some {
                    assert(active_link(self.pool.trails@[i]) == active_link(ot[i]));
                    assert(match active_link(ot[i]) {
                        Some(id) => id < self.world.next_id,
                        None => true,
                    });
                }
            }
        }
    }

    /// One run of the spawn system.  The timer always advances; when
    /// it fires and the round counter is still under the population
    /// cap, each panel spawns one ball per surviving participant —
    /// placed by the oracle, trail attached reuse-first — and the
    /// counter steps.  Returns the two panels' plans; an exhausted
    /// placement loop changes nothing but the timer, and can arise
    /// only on a firing, ungated round with at least one survivor —
    /// every other tick is owed `Ok`.
    pub fn spawn_workers(
        &mut self,
        delta_ms: u64,
        survivors: &SurvivorMap,
        colors: &ParticipantColors,
    ) -> (r: Result<(Vec<PlannedSpawn>, Vec<PlannedSpawn>), PlacementExhausted>)
        requires
            old(self).wf(),
            delta_ms <= u64::MAX - crate::config::WORKER_BALL_SPAWN_TIMER_MS,
            old(self).world.next_id + 4 <= u64::MAX,
        ensures
            final(self).wf(),
            final(self).spawner.timer_elapsed_ms == (old(self).spawner.timer_elapsed_ms
                + delta_ms) % (crate::config::WORKER_BALL_SPAWN_TIMER_MS as int),
            final(self).world.zones@ == old(self).world.zones@,
            final(self).world.left_root == old(self).world.left_root,
            final(self).world.right_root == old(self).world.right_root,
            match r {
                Ok(plans) => if old(self).spawner.spec_fires(delta_ms) && old(
                    self,
                ).spawner.spec_gate_open() {
                    &&& panel_plan_ok(
                        plans.0@,
                        old(self).world.balls@,
                        Participant::A,
                        Participant::B,
                        survivors.a,
                        survivors.b,
                    )
                    &&& panel_plan_ok(
                        plans.1@,
                        old(self).world.balls@,
                        Participant::C,
                        Participant::D,
                        survivors.c,
                        survivors.d,
                    )
                    &&& final(self).world.balls@ == old(self).world.balls@ + spec_spawn_seq(
                        plans.0@,
                        old(self).world.next_id,
                    ) + spec_spawn_seq(
                        plans.1@,
                        (old(self).world.next_id + plans.0@.len()) as u64,
                    )
                    &&& final(self).world.next_id == old(self).world.next_id + plans.0@.len()
                        + plans.1@.len()
                    &&& final(self).pool.trails@ == spec_attach_all(
                        spec_attach_all(
                            old(self).pool.trails@,
                            plans.0@,
                            old(self).world.next_id,
                            *colors,
                        ),
                        plans.1@,
                        (old(self).world.next_id + plans.0@.len()) as u64,
                        *colors,
                    )
                    &&& final(self).pool.go_left == old(self).pool.go_left
                    &&& final(self).spawner.counter == old(self).spawner.counter + 1
                } else {
                    &&& plans.0@ == Seq::<PlannedSpawn>::empty()
                    &&& plans.1@ == Seq::<PlannedSpawn>::empty()
                    &&& final(self).world.balls@ == old(self).world.balls@
                    &&& final(self).world.next_id == old(self).world.next_id
                    &&& final(self).pool.trails@ == old(self).pool.trails@
                    &&& final(self).pool.go_left == old(self).pool.go_left
                    &&& final(self).spawner.counter == old(self).spawner.counter
                },
                Err(_) => {
                    &&& final(self).world.balls@ == old(self).world.balls@
                    &&& final(self).world.next_id == old(self).world.next_id
                    &&& final(self).pool.trails@ == old(self).pool.trails@
                    &&& final(self).pool.go_left == old(self).pool.go_left
                    &&& final(self).spawner.counter == old(self).spawner.counter
                    &&& old(self).spawner.spec_fires(delta_ms)
                    &&& old(self).spawner.spec_gate_open()
                    &&& (survivors.a || survivors.b || survivors.c || survivors.d)
                },
            },
    {
        let fired = self.spawner.tick(delta_ms);
        let gate = self.spawner.can_spawn();
        if !(fired && gate) {
            return Ok((Vec::new(), Vec::new()));
        }
        let left = match plan_panel(
            &self.world.balls,
            Participant::A,
            Participant::B,
            survivors.alive(Participant::A),
            survivors.alive(Participant::B),
        ) {
            Ok(v) => v,
            Err(e) => { return Err(e); },
        };
        let right = match plan_panel(
            &self.world.balls,
            Participant::C,
            Participant::D,
            survivors.alive(Participant::C),
            survivors.alive(Participant::D),
        ) {
            Ok(v) => v,
            Err(e) => { return Err(e); },
        };
        proof {
            assert(left@.map_values(|e: PlannedSpawn| e.participant).len() == left@.len());
            assert(left@.len() <= 2);
            assert(right@.map_values(|e: PlannedSpawn| e.participant).len() == right@.len());
            assert(right@.len() <= 2);
        }
        apply_spawns(&mut self.world, &mut self.pool, &left, colors);
        apply_spawns(&mut self.world, &mut self.pool, &right, colors);
        self.spawner.counter += 1;
        Ok((left, right))
    }

    /// The trigger translator on this tick's contact batch.
    pub fn translate(
        &self,
        contacts: &Vec<ContactEvent>,
        restart_pending: bool,
    ) -> (events: Vec<TriggerEvent>)
        requires
            self.wf(),
        ensures
            restart_pending ==> events@ == Seq::<TriggerEvent>::empty(),
            !restart_pending ==> events@ == translated_events(
                self.world.zones@,
                self.world.balls@,
                contacts@,
            ),
    {
        translate_contacts(&self.world, contacts, restart_pending)
    }

    /// The zone-exit recycler on this tick's contact batch.
    pub fn recycle(&mut self, contacts: &Vec<ContactEvent>) -> (r: Result<
        (),
        PlacementExhausted,
    >)
        requires
            old(self).wf(),
        ensures
            final(self).wf(),
            final(self).spawner == old(self).spawner,
            final(self).pool.trails@ == old(self).pool.trails@,
            final(self).pool.go_left == old(self).pool.go_left,
            final(self).world.zones@ == old(self).world.zones@,
            final(self).world.next_id == old(self).world.next_id,
            final(self).world.balls@.len() == old(self).world.balls@.len(),
            forall|i: int|
                0 <= i < old(self).world.balls@.len()
                    ==> ((#[trigger] final(self).world.balls@[i]).id
                    == old(self).world.balls@[i].id
                    && final(self).world.balls@[i].participant
                    == old(self).world.balls@[i].participant
                    && (final(self).world.balls@[i] == old(self).world.balls@[i]
                    || recycled_shape(final(self).world.balls@[i]))),
            r is Ok ==> forall|k: int, t: u64|
                0 <= k < contacts@.len() && #[trigger] crate::recycler::recycle_demand(
                    old(self).world.zones@,
                    old(self).world.balls@,
                    contacts@[k],
                    t,
                ) ==> exists|j: int|
                    0 <= j < final(self).world.balls@.len()
                        && final(self).world.balls@[j].id == t && recycled_shape(
                        final(self).world.balls@[j],
                    ),
            r is Err ==> exists|k: int, t: u64|
                0 <= k < contacts@.len() && crate::recycler::recycle_demand(
                    old(self).world.zones@,
                    old(self).world.balls@,
                    contacts@[k],
                    t,
                ),
    {
        recycle_contacts(&mut self.world, contacts)
    }

    /// The restart coordinator: one logical transaction that clears
    /// the ball population of both panels, resets the spawner, and
    /// parks every trail.  The same tick's contact batch is discarded
    /// by handing `restart_pending` to [`PanelSim::translate`].
    pub fn restart(&mut self)
        requires
            old(self).wf(),
        ensures
            final(self).wf(),
            restart_post(*old(self), *final(self)),
    {
        self.spawner.reset();
        self.world.balls = Vec::new();
        self.pool.reset();
        proof {
            assert forall|i: int| 0 <= i < self.pool.trails@.len() implies match active_link(
                #[trigger] self.pool.trails@[i],
            ) {
                Some(id) => id < self.world.next_id,
                None => true,
            } by {
                assert(self.pool.trails@[i] == crate::trail::spec_parked(
                    crate::trail::side_for_park_index(i),
                ));
            }
        }
    }
}

} // verus!
