//! The pooled visual trail system.
//!
//! A trail is an expensive particle effect that follows a live worker
//! ball.  Destroying and recreating the underlying effect resource every
//! time a ball disappears causes severe frame-time spikes, so a trail
//! whose ball vanished is parked ("idle") at a fixed resting position
//! instead, visually suppressed, and reused for the next ball spawned on
//! a matching panel side.  Reuse is mandatory before creation: the pool
//! never allocates a new trail while an idle one of the needed side
//! exists.

use vstd::prelude::*;
use crate::config::WORKER_BALL_SPAWN_Y;
use crate::geometry::{root_x, spec_root_x};
use crate::participant::PanelRootSide;
use crate::world::{ball_ids_distinct, ball_lookup, spec_ball_lookup, WorkerBall};

verus! {

/// Whether a trail currently follows a live ball or is parked for
/// reuse.
#[derive(Clone, Copy, Debug, PartialEq, Eq, Structural)]
pub enum TrailState {
    /// Positionally slaved to the worker ball with the given id.
    Active { ball: u64 },
    /// Parked at the resting position of the given side, reusable for
    /// that side.
    Idle { side: PanelRootSide },
}

/// One pooled trailing effect: its link state, its world position, and
/// its spawn-color handle (`None` while visually suppressed).
#[derive(Clone, Copy, Debug, PartialEq, Eq)]
pub struct Trail {
    pub state: TrailState,
    pub x: i64,
    pub y: i64,
    pub color: Option<u32>,
}

/// The side the alternation toggle currently points at.
pub open spec fn toggle_side(go_left: bool) -> PanelRootSide {
    if go_left {
        PanelRootSide::Left
    } else {
        PanelRootSide::Right
    }
}

/// A trail parked for the given side: idle, suppressed, resting at the
/// side's root anchor at spawn height.
pub open spec fn spec_parked(side: PanelRootSide) -> Trail {
    Trail {
        state: TrailState::Idle { side },
        x: spec_root_x(side),
        y: WORKER_BALL_SPAWN_Y,
        color: None,
    }
}

/// A trail freshly attached to the ball with the given id at world
/// position `x`, carrying the owner's color.
pub open spec fn spec_attached(ball: u64, color: u32, x: i64) -> Trail {
    Trail {
        state: TrailState::Active { ball },
        x,
        y: WORKER_BALL_SPAWN_Y,
        color: Some(color),
    }
}

/// Whether the trail is idle and tagged with the given side.
pub open spec fn is_idle_on(t: Trail, side: PanelRootSide) -> bool {
    t.state == (TrailState::Idle { side })
}

/// The ball a trail follows, if it is active.
pub open spec fn active_link(t: Trail) -> Option<u64> {
    match t.state {
        TrailState::Active { ball } => Some(ball),
        TrailState::Idle { .. } => None,
    }
}

/// Whether the pool holds an idle trail tagged with the given side.
pub open spec fn has_idle(trails: Seq<Trail>, side: PanelRootSide) -> bool {
    exists|i: int| 0 <= i < trails.len() && is_idle_on(trails[i], side)
}

/// Whether `i` is the position of the oldest idle trail of the given
/// side (trails are kept in creation order and never removed).
pub open spec fn is_first_idle(trails: Seq<Trail>, side: PanelRootSide, i: int) -> bool {
    &&& 0 <= i < trails.len()
    &&& is_idle_on(trails[i], side)
    &&& forall|j: int| 0 <= j < i ==> !is_idle_on(trails[j], side)
}

/// One trail's frame update against the ball population: an active
/// trail whose ball is live follows it; one whose ball vanished parks
/// on the side the toggle picks, and the toggle flips; an idle trail is
/// left alone.
pub open spec fn spec_trail_step(t: Trail, balls: Seq<WorkerBall>, go_left: bool) -> (Trail, bool) {
    match t.state {
        TrailState::Active { ball } => match spec_ball_lookup(balls, ball) {
            Some(b) => (Trail { x: b.x, y: b.y, ..t }, go_left),
            None => (spec_parked(toggle_side(go_left)), !go_left),
        },
        TrailState::Idle { .. } => (t, go_left),
    }
}

/// The frame update of the whole pool: every trail stepped in order,
/// the alternation toggle threaded through.
pub open spec fn spec_update_all(trails: Seq<Trail>, balls: Seq<WorkerBall>, go_left: bool) -> (
    Seq<Trail>,
    bool,
)
    decreases trails.len(),
{
    if trails.len() == 0 {
        (Seq::<Trail>::empty(), go_left)
    } else {
        let prefix = spec_update_all(trails.drop_last(), balls, go_left);
        let stepped = spec_trail_step(trails.last(), balls, prefix.1);
        (prefix.0.push(stepped.0), stepped.1)
    }
}

/// The pool contents after one attachment: the oldest idle trail of
/// the side is relinked if one exists, a new trail appears only
/// otherwise.
pub open spec fn spec_attach_step(
    trails: Seq<Trail>,
    ball: u64,
    side: PanelRootSide,
    color: u32,
    x: i64,
) -> Seq<Trail> {
    if has_idle(trails, side) {
        trails.update(
            choose|i: int| is_first_idle(trails, side, i),
            spec_attached(ball, color, x),
        )
    } else {
        trails.push(spec_attached(ball, color, x))
    }
}

/// The side assigned to the trail at position `i` when the whole pool
/// is parked by a restart: the toggle restarts from its initial value
/// and alternates, so even positions park right, odd positions left.
pub open spec fn side_for_park_index(i: int) -> PanelRootSide {
    if i % 2 == 0 {
        PanelRootSide::Right
    } else {
        PanelRootSide::Left
    }
}

/// The pool after a restart: every trail parked, sides alternating from
/// the toggle's initial value.
pub open spec fn spec_park_all(trails: Seq<Trail>) -> Seq<Trail> {
    Seq::new(trails.len(), |i: int| spec_parked(side_for_park_index(i)))
}

/// A frame update never invents a link: every trail of the updated
/// pool either kept the link it had at the same position or lost it.
pub proof fn lemma_update_all_links(trails: Seq<Trail>, balls: Seq<WorkerBall>, go_left: bool)
    ensures
        spec_update_all(trails, balls, go_left).0.len() == trails.len(),
        forall|i: int|
            0 <= i < trails.len() && active_link(
                #[trigger] spec_update_all(trails, balls, go_left).0[i],
            ) is Some ==> active_link(spec_update_all(trails, balls, go_left).0[i]) == active_link(
                trails[i],
            ),
    decreases trails.len(),
{
    if trails.len() == 0 {
    } else {
        let front = trails.drop_last();
        lemma_update_all_links(front, balls, go_left);
        let prefix = spec_update_all(front, balls, go_left);
        let stepped = spec_trail_step(trails.last(), balls, prefix.1);
        assert forall|i: int|
            0 <= i < trails.len() && active_link(
                #[trigger] spec_update_all(trails, balls, go_left).0[i],
            ) is Some implies active_link(spec_update_all(trails, balls, go_left).0[i])
            == active_link(trails[i]) by {
            if i < trails.len() - 1 {
                assert(spec_update_all(trails, balls, go_left).0[i] == prefix.0[i]);
                assert(front[i] == trails[i]);
            } else {
                assert(spec_update_all(trails, balls, go_left).0[i] == stepped.0);
            }
        }
    }
}

/// The pool of all trail resources, in creation order, together with
/// the process-wide left/right alternation toggle that spreads parked
/// trails over both sides.
pub struct TrailPool {
    pub trails: Vec<Trail>,
    /// The side the next vanished trail parks on: left when set.  Its
    /// initial value is `false`.
    pub go_left: bool,
}

impl TrailPool {
    /// Well-formedness: an idle trail is exactly a parked one (resting
    /// position, suppressed color), and no two trails follow the same
    /// ball.
    pub open spec fn wf(self) -> bool {
        &&& forall|i: int, s: PanelRootSide|
            0 <= i < self.trails@.len() && #[trigger] is_idle_on(self.trails@[i], s)
                ==> self.trails@[i] == spec_parked(s)
        &&& forall|i: int, j: int|
            0 <= i < j < self.trails@.len() && active_link(#[trigger] self.trails@[i]) is Some
                ==> active_link(self.trails@[i]) != active_link(#[trigger] self.trails@[j])
    }

    /// An empty pool with the toggle at its initial value.
    pub fn new() -> (pool: TrailPool)
        ensures
            pool.wf(),
            pool.trails@ == Seq::<Trail>::empty(),
            pool.go_left == false,
    {
        TrailPool { trails: Vec::new(), go_left: false }
    }
}

/// Builds a trail parked for the given side.
fn parked_trail(side: PanelRootSide) -> (t: Trail)
    ensures
        t == spec_parked(side),
{
    Trail { state: TrailState::Idle { side }, x: root_x(side), y: WORKER_BALL_SPAWN_Y, color: None }
}

impl TrailPool {
    /// Attaches a trail to a freshly spawned ball: the oldest idle
    /// trail tagged with the ball's panel side is reused (relinked,
    /// recolored, moved to the spawn point) if one exists; only
    /// otherwise is a new trail resource allocated.  Returns the
    /// position of the trail used.
    pub fn attach(&mut self, ball: u64, side: PanelRootSide, color: u32, x: i64) -> (idx: usize)
        requires
            old(self).wf(),
            forall|i: int|
                0 <= i < old(self).trails@.len()
                    ==> active_link(#[trigger] old(self).trails@[i]) != Some(ball),
        ensures
            final(self).wf(),
            final(self).go_left == old(self).go_left,
            idx < final(self).trails@.len(),
            final(self).trails@[idx as int] == spec_attached(ball, color, x),
            has_idle(old(self).trails@, side) ==> is_first_idle(old(self).trails@, side, idx as int)
                && final(self).trails@ == old(self).trails@.update(
                idx as int,
                spec_attached(ball, color, x),
            ),
            !has_idle(old(self).trails@, side) ==> idx == old(self).trails@.len()
                && final(self).trails@ == old(self).trails@.push(spec_attached(ball, color, x)),
            final(self).trails@.len() == old(self).trails@.len() + (if has_idle(
                old(self).trails@,
                side,
            ) {
                0int
            } else {
                1int
            }),
    {
        let t = Trail {
            state: TrailState::Active { ball },
            x,
            y: WORKER_BALL_SPAWN_Y,
            color: Some(color),
        };
        let mut i: usize = 0;
        while i < self.trails.len()
            invariant
                *self == *old(self),
                old(self).wf(),
                forall|j: int|
                    0 <= j < old(self).trails@.len()
                        ==> active_link(#[trigger] old(self).trails@[j]) != Some(ball),
                t == spec_attached(ball, color, x),
                i <= self.trails@.len(),
                forall|j: int| 0 <= j < i ==> !is_idle_on(self.trails@[j], side),
            decreases self.trails@.len() - i,
        {
            let found = match self.trails[i].state {
                TrailState::Idle { side: s } => s == side,
                TrailState::Active { .. } => false,
            };
            if found {
                self.trails.set(i, t);
                proof {
                    let ots = old(self).trails@;
                    let ts = self.trails@;
                    assert(is_idle_on(ots[i as int], side));
                    assert(has_idle(ots, side));
                    assert(is_first_idle(ots, side, i as int));
                    assert forall|k: int, s: PanelRootSide|
                        0 <= k < ts.len() && #[trigger] is_idle_on(ts[k], s) implies ts[k]
                        == spec_parked(s) by {
                        if k != i as int {
                            assert(ts[k] == ots[k]);
                        } else {
                            assert(!is_idle_on(ts[k], s));
                        }
                    }
                    assert forall|k: int, l: int|
                        0 <= k < l < ts.len() && active_link(#[trigger] ts[k]) is Some implies
                        active_link(ts[k]) != active_link(#[trigger] ts[l]) by {
                        if k == i as int {
                            assert(ts[l] == ots[l]);
                            assert(active_link(ots[l]) != Some(ball));
                        } else if l == i as int {
                            assert(ts[k] == ots[k]);
                            assert(active_link(ots[k]) != Some(ball));
                        } else {
                            assert(ts[k] == ots[k] && ts[l] == ots[l]);
                        }
                    }
                }
                return i;
            }
            i += 1;
        }
        proof {
            assert(!has_idle(self.trails@, side));
        }
        let idx = self.trails.len();
        self.trails.push(t);
        proof {
            let ots = old(self).trails@;
            let ts = self.trails@;
            assert forall|k: int, s: PanelRootSide|
                0 <= k < ts.len() && #[trigger] is_idle_on(ts[k], s) implies ts[k]
                == spec_parked(s) by {
                if k < ots.len() {
                    assert(ts[k] == ots[k]);
                } else {
                    assert(!is_idle_on(ts[k], s));
                }
            }
            assert forall|k: int, l: int|
                0 <= k < l < ts.len() && active_link(#[trigger] ts[k]) is Some implies active_link(
                ts[k],
            ) != active_link(#[trigger] ts[l]) by {
                if l < ots.len() {
                    assert(ts[k] == ots[k] && ts[l] == ots[l]);
                } else {
                    assert(ts[k] == ots[k] && ts[l] == t);
                    assert(active_link(ots[k]) != Some(ball));
                }
            }
        }
        idx
    }

    /// The per-frame position update, run before spawning: every active
    /// trail follows its ball if the ball is still live; a trail whose
    /// ball vanished is parked on the side the alternation toggle
    /// picks, which then flips.
    pub fn update_all(&mut self, balls: &Vec<WorkerBall>)
        requires
            old(self).wf(),
            ball_ids_distinct(balls@),
        ensures
            final(self).wf(),
            (final(self).trails@, final(self).go_left) == spec_update_all(
                old(self).trails@,
                balls@,
                old(self).go_left,
            ),
    {
        let ghost ots = old(self).trails@;
        let mut i: usize = 0;
        while i < self.trails.len()
            invariant
                old(self).wf(),
                ball_ids_distinct(balls@),
                i <= self.trails@.len(),
                self.trails@.len() == ots.len(),
                ots == old(self).trails@,
                forall|j: int| i <= j < ots.len() ==> self.trails@[j] == ots[j],
                (self.trails@.take(i as int), self.go_left) == spec_update_all(
                    ots.take(i as int),
                    balls@,
                    old(self).go_left,
                ),
                self.wf(),
            decreases self.trails@.len() - i,
        {
            let ghost pre = self.trails@;
            let ghost pre_go = self.go_left;
            let t = self.trails[i];
            match t.state {
                TrailState::Active { ball } => {
                    match ball_lookup(balls, ball) {
                        Some(b) => {
                            self.trails.set(i, Trail { x: b.x, y: b.y, ..t });
                        },
                        None => {
                            let side = if self.go_left {
                                PanelRootSide::Left
                            } else {
                                PanelRootSide::Right
                            };
                            self.trails.set(i, parked_trail(side));
                            self.go_left = !self.go_left;
                        },
                    }
                },
                TrailState::Idle { .. } => {},
            }
            proof {
                assert(ots.take(i as int + 1).drop_last() =~= ots.take(i as int));
                assert(ots.take(i as int + 1).last() == ots[i as int]);
                assert((self.trails@[i as int], self.go_left) == spec_trail_step(
                    ots[i as int],
                    balls@,
                    pre_go,
                ));
                assert(self.trails@.take(i as int + 1) =~= self.trails@.take(i as int).push(
                    self.trails@[i as int],
                ));
                assert(self.trails@.take(i as int) =~= pre.take(i as int));
                assert forall|k: int, l: int|
                    0 <= k < l < self.trails@.len() && active_link(
                        #[trigger] self.trails@[k],
                    ) is Some implies active_link(self.trails@[k]) != active_link(
                    #[trigger] self.trails@[l],
                ) by {
                    if k != i as int && l != i as int {
                        assert(self.trails@[k] == pre[k] && self.trails@[l] == pre[l]);
                    } else if k == i as int {
                        assert(self.trails@[l] == pre[l]);
                        assert(active_link(self.trails@[k]) == active_link(pre[k]));
                    } else {
                        assert(self.trails@[k] == pre[k]);
                        if active_link(self.trails@[l]) is Some {
                            assert(active_link(self.trails@[l]) == active_link(pre[l]));
                        }
                    }
                }
            }
            i += 1;
        }
        proof {
            assert(ots.take(ots.len() as int) =~= ots);
            assert(self.trails@.take(ots.len() as int) =~= self.trails@);
        }
    }

    /// The restart transition of the pool: every trail (active or idle)
    /// is forced idle, suppressed and parked; the alternation toggle
    /// restarts from its initial value and alternates over the trails
    /// in order, so they end spread over both sides.
    pub fn reset(&mut self)
        ensures
            final(self).wf(),
            final(self).trails@ == spec_park_all(old(self).trails@),
            final(self).go_left == (old(self).trails@.len() % 2 == 1),
    {
        let ghost ots = old(self).trails@;
        self.go_left = false;
        let mut i: usize = 0;
        while i < self.trails.len()
            invariant
                i <= self.trails@.len(),
                self.trails@.len() == ots.len(),
                self.go_left == (i % 2 == 1),
                forall|j: int|
                    0 <= j < i ==> self.trails@[j] == spec_parked(side_for_park_index(j)),
            decreases self.trails@.len() - i,
        {
            let side = if self.go_left {
                PanelRootSide::Left
            } else {
                PanelRootSide::Right
            };
            self.trails.set(i, parked_trail(side));
            self.go_left = !self.go_left;
            i += 1;
        }
        proof {
            assert(self.trails@ =~= spec_park_all(ots));
        }
    }
}

} // verus!
