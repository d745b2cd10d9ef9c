//! The zone-exit recycler: a worker ball that stops touching a trigger
//! zone is not destroyed but teleported back to a fresh non-overlapping
//! spawn position at the top of its own panel, with its velocity
//! zeroed.  Destruction of balls is an external decision made
//! elsewhere.

use vstd::prelude::*;
use crate::events::ContactEvent;
use crate::geometry::in_span;
use crate::oracle::{find_spawn_x, spawn_point_clear, PlacementExhausted};
use crate::participant::PanelRootSide;
use crate::world::{
    spec_ball_lookup, spec_zone_lookup, PanelWorld, TriggerZone, WorkerBall,
};

verus! {

/// The entity a contact-end between `a` and `b` sends back to the top,
/// if either side resolves to a trigger zone: the other side (`a` is
/// consulted first, as in the translator).
pub open spec fn end_recycle_target(zones: Seq<TriggerZone>, a: u64, b: u64) -> Option<u64> {
    if spec_zone_lookup(zones, a) is Some {
        Some(b)
    } else if spec_zone_lookup(zones, b) is Some {
        Some(a)
    } else {
        None
    }
}

/// Whether a ball is in the shape the recycler leaves it in: resting at
/// spawn height at some in-span position of its own panel.
pub open spec fn recycled_shape(b: WorkerBall) -> bool {
    exists|x: i64| in_span(x) && b == WorkerBall::spec_spawned(b.id, b.participant, x)
}

/// Handles one contact-end event.  If one side is a trigger zone and
/// the other a live worker ball, that ball is teleported to a fresh
/// clear position at the top of its own panel with velocity zero;
/// every other pairing is ignored, silently, since same-tick despawns
/// make unresolvable contacts routine.  Returns whether a ball was
/// recycled; an exhausted placement loop leaves the world unchanged
/// and surfaces the logic error, and can arise only on a contact that
/// did resolve to a zone and a live ball — everything else is owed
/// `Ok`.
pub fn handle_contact_end(world: &mut PanelWorld, a: u64, b: u64) -> (r: Result<
    bool,
    PlacementExhausted,
>)
    requires
        old(world).wf(),
    ensures
        final(world).wf(),
        final(world).zones@ == old(world).zones@,
        final(world).next_id == old(world).next_id,
        final(world).left_root == old(world).left_root,
        final(world).right_root == old(world).right_root,
        match r {
            Ok(recycled) => match end_recycle_target(old(world).zones@, a, b) {
                Some(target) => match spec_ball_lookup(old(world).balls@, target) {
                    Some(_) => recycled && exists|i: int, x: i64|
                        0 <= i < old(world).balls@.len() && old(world).balls@[i].id == target
                            && in_span(x) && spawn_point_clear(
                            old(world).balls@,
                            old(world).balls@[i].side(),
                            x,
                        ) && final(world).balls@ == old(world).balls@.update(
                            i,
                            WorkerBall::spec_spawned(
                                old(world).balls@[i].id,
                                old(world).balls@[i].participant,
                                x,
                            ),
                        ),
                    None => !recycled && final(world).balls@ == old(world).balls@,
                },
                None => !recycled && final(world).balls@ == old(world).balls@,
            },
            Err(_) => final(world).balls@ == old(world).balls@ && match end_recycle_target(
                old(world).zones@,
                a,
                b,
            ) {
                Some(target) => spec_ball_lookup(old(world).balls@, target) is Some,
                None => false,
            },
        },
{
    let target = if world.zone_by_id(a).is_some() {
        b
    } else if world.zone_by_id(b).is_some() {
        a
    } else {
        return Ok(false);
    };
    let idx = match world.ball_index_of(target) {
        Some(i) => i,
        None => { return Ok(false); },
    };
    proof {
        assert(spec_ball_lookup(old(world).balls@, target) is Some);
    }
    let ball = world.balls[idx];
    let x = match find_spawn_x(&world.balls, PanelRootSide::for_participant(ball.participant)) {
        Some(x) => x,
        None => { return Err(PlacementExhausted); },
    };
    let fresh = WorkerBall::new(ball.id, ball.participant, x);
    world.balls.set(idx, fresh);
    proof {
        let obs = old(world).balls@;
        assert(obs[idx as int] == ball);
        assert(0 <= idx < obs.len() && obs[idx as int].id == target && in_span(x)
            && spawn_point_clear(obs, obs[idx as int].side(), x) && world.balls@ == obs.update(
            idx as int,
            WorkerBall::spec_spawned(obs[idx as int].id, obs[idx as int].participant, x),
        ));
        assert(exists|i: int, x2: i64|
            0 <= i < obs.len() && obs[i].id == target && in_span(x2) && spawn_point_clear(
                obs,
                obs[i].side(),
                x2,
            ) && world.balls@ == obs.update(
                i,
                WorkerBall::spec_spawned(obs[i].id, obs[i].participant, x2),
            ));
    }
    Ok(true)
}

/// Whether a contact event obliges the recycler, against the given
/// world contents: it is a contact-end in which one side resolves to a
/// trigger zone and the other side, `t`, to a live worker ball.
pub open spec fn recycle_demand(
    zones: Seq<TriggerZone>,
    balls: Seq<WorkerBall>,
    e: ContactEvent,
    t: u64,
) -> bool {
    match e {
        ContactEvent::Stopped(a, b) => end_recycle_target(zones, a, b) == Some(t)
            && spec_ball_lookup(balls, t) is Some,
        ContactEvent::Started(_, _) => false,
    }
}

/// Drains one tick's contact events through the recycler: every
/// contact-end is handled in order; contact-begin events are not this
/// system's concern.  Whatever happened, every ball keeps its identity
/// and owner, and each is either untouched or left in recycled shape;
/// and when the batch went through, every ball a contact-end obliged
/// the recycler to handle ends the tick in recycled shape.
pub fn recycle_contacts(world: &mut PanelWorld, contacts: &Vec<ContactEvent>) -> (r: Result<
    (),
    PlacementExhausted,
>)
    requires
        old(world).wf(),
    ensures
        final(world).wf(),
        final(world).zones@ == old(world).zones@,
        final(world).next_id == old(world).next_id,
        final(world).left_root == old(world).left_root,
        final(world).right_root == old(world).right_root,
        final(world).balls@.len() == old(world).balls@.len(),
        forall|i: int|
            0 <= i < old(world).balls@.len() ==> (#[trigger] final(world).balls@[i]).id == old(
                world,
            ).balls@[i].id && final(world).balls@[i].participant == old(world).balls@[i].participant
                && (final(world).balls@[i] == old(world).balls@[i] || recycled_shape(
                final(world).balls@[i],
            )),
        r is Ok ==> forall|k: int, t: u64|
            0 <= k < contacts@.len() && #[trigger] recycle_demand(
                old(world).zones@,
                old(world).balls@,
                contacts@[k],
                t,
            ) ==> exists|j: int|
                0 <= j < final(world).balls@.len() && final(world).balls@[j].id == t
                    && recycled_shape(final(world).balls@[j]),
        r is Err ==> exists|k: int, t: u64|
            0 <= k < contacts@.len() && recycle_demand(
                old(world).zones@,
                old(world).balls@,
                contacts@[k],
                t,
            ),
{
    let ghost obs = old(world).balls@;
    let mut i: usize = 0;
    while i < contacts.len()
        invariant
            world.wf(),
            world.zones@ == old(world).zones@,
            world.next_id == old(world).next_id,
            world.left_root == old(world).left_root,
            world.right_root == old(world).right_root,
            obs == old(world).balls@,
            world.balls@.len() == obs.len(),
            i <= contacts@.len(),
            forall|j: int|
                0 <= j < obs.len() ==> (#[trigger] world.balls@[j]).id == obs[j].id
                    && world.balls@[j].participant == obs[j].participant && (world.balls@[j]
                    == obs[j] || recycled_shape(world.balls@[j])),
            forall|k: int, t: u64|
                0 <= k < i && #[trigger] recycle_demand(old(world).zones@, obs, contacts@[k], t)
                    ==> exists|j: int|
                    0 <= j < world.balls@.len() && world.balls@[j].id == t && recycled_shape(
                        world.balls@[j],
                    ),
        decreases contacts@.len() - i,
    {
        let ghost pre = world.balls@;
        match contacts[i] {
            ContactEvent::Stopped(a, b) => {
                match handle_contact_end(world, a, b) {
                    Ok(_) => {},
                    Err(e) => {
                        proof {
                            let t = choose|t: u64|
                                end_recycle_target(old(world).zones@, a, b) == Some(t);
                            assert(spec_ball_lookup(pre, t) is Some);
                            let w = choose|w: int| 0 <= w < pre.len() && pre[w].id == t;
                            assert(obs[w].id == t);
                            assert(spec_ball_lookup(obs, t) is Some);
                            assert(recycle_demand(
                                old(world).zones@,
                                obs,
                                contacts@[i as int],
                                t,
                            ));
                            assert(exists|k: int, t2: u64|
                                0 <= k < contacts@.len() && recycle_demand(
                                    old(world).zones@,
                                    obs,
                                    contacts@[k],
                                    t2,
                                ));
                        }
                        return Err(e);
                    },
                }
                proof {
                    assert forall|j: int|
                        0 <= j < obs.len() implies (#[trigger] world.balls@[j]).id == obs[j].id
                        && world.balls@[j].participant == obs[j].participant && (world.balls@[j]
                        == obs[j] || recycled_shape(world.balls@[j])) by {
                        if world.balls@[j] != pre[j] {
                            assert(recycled_shape(world.balls@[j]));
                        }
                    }
                    assert forall|k: int, t: u64|
                        0 <= k < i + 1 && #[trigger] recycle_demand(
                            old(world).zones@,
                            obs,
                            contacts@[k],
                            t,
                        ) implies exists|j: int|
                        0 <= j < world.balls@.len() && world.balls@[j].id == t && recycled_shape(
                            world.balls@[j],
                        ) by {
                        if k < i {
                            let j = choose|j: int|
                                0 <= j < pre.len() && pre[j].id == t && recycled_shape(pre[j]);
                            assert(world.balls@[j].id == pre[j].id);
                            if world.balls@[j] != pre[j] {
                                assert(recycled_shape(world.balls@[j]));
                            }
                        } else {
                            // this very event: its target resolves, so
                            // the handler recycled the ball at some
                            // position found by the oracle
                            assert(end_recycle_target(old(world).zones@, a, b) == Some(t));
                            assert(spec_ball_lookup(obs, t) is Some);
                            let w = choose|w: int| 0 <= w < obs.len() && obs[w].id == t;
                            assert(pre[w].id == t);
                            assert(spec_ball_lookup(pre, t) is Some);
                            let (j2, x) = choose|j2: int, x: i64|
                                0 <= j2 < pre.len() && pre[j2].id == t && in_span(x)
                                    && spawn_point_clear(pre, pre[j2].side(), x) && world.balls@
                                    == pre.update(
                                    j2,
                                    WorkerBall::spec_spawned(pre[j2].id, pre[j2].participant, x),
                                );
                            assert(world.balls@[j2].id == t);
                            assert(recycled_shape(world.balls@[j2]));
                        }
                    }
                }
            },
            ContactEvent::Started(_, _) => {},
        }
        i += 1;
    }
    Ok(())
}

} // verus!
