//! The periodic worker-ball spawner: a repeating timer plus the
//! spawn-round counter, reset together by the restart coordinator.

use vstd::prelude::*;
use crate::config::{TRAIL_LIFETIME_MS, WORKER_BALL_COUNT_MAX, WORKER_BALL_SPAWN_TIMER_MS};

verus! {

/// The spawn driver: a repeating timer with period
/// [`WORKER_BALL_SPAWN_TIMER_MS`], phase-shifted so that its first fire
/// lines up with the trail-lifetime bookkeeping, and the count of spawn
/// rounds completed since the last restart.
#[derive(Clone, Copy, Debug, PartialEq, Eq, Structural)]
pub struct WorkerBallSpawner {
    /// Time elapsed within the current timer period.
    pub timer_elapsed_ms: u64,
    /// Spawn rounds completed; spawning stops at
    /// [`WORKER_BALL_COUNT_MAX`].
    pub counter: usize,
}

impl WorkerBallSpawner {
    /// The elapsed time always stays inside the period.
    pub open spec fn wf(self) -> bool {
        self.timer_elapsed_ms < WORKER_BALL_SPAWN_TIMER_MS
    }

    /// The state the spawner starts in and returns to on restart: the
    /// counter cleared, the timer advanced by all but the trail
    /// lifetime so the first fire comes one trail lifetime in.
    pub open spec fn spec_initial() -> WorkerBallSpawner {
        WorkerBallSpawner {
            timer_elapsed_ms: (WORKER_BALL_SPAWN_TIMER_MS - TRAIL_LIFETIME_MS) as u64,
            counter: 0,
        }
    }

    /// Whether advancing the timer by `delta_ms` crosses a period
    /// boundary and so fires a spawn round.
    pub open spec fn spec_fires(self, delta_ms: u64) -> bool {
        self.timer_elapsed_ms + delta_ms >= WORKER_BALL_SPAWN_TIMER_MS
    }

    /// Whether the population gate is still open: rounds below the cap
    /// may spawn.  Evaluated before the timer is consulted.
    pub open spec fn spec_gate_open(self) -> bool {
        self.counter < WORKER_BALL_COUNT_MAX
    }

    /// Builds a spawner in its initial phase-shifted state.
    pub fn new() -> (s: WorkerBallSpawner)
        ensures
            s == WorkerBallSpawner::spec_initial(),
            s.wf(),
    {
        WorkerBallSpawner {
            timer_elapsed_ms: WORKER_BALL_SPAWN_TIMER_MS - TRAIL_LIFETIME_MS,
            counter: 0,
        }
    }

    /// Returns the spawner to its initial phase-shifted state and
    /// clears the round counter.
    pub fn reset(&mut self)
        ensures
            *final(self) == WorkerBallSpawner::spec_initial(),
            final(self).wf(),
    {
        self.timer_elapsed_ms = WORKER_BALL_SPAWN_TIMER_MS - TRAIL_LIFETIME_MS;
        self.counter = 0;
    }

    /// Advances the repeating timer and reports whether it fired this
    /// tick.  The counter is untouched: the timer keeps advancing even
    /// while the population gate is closed.
    pub fn tick(&mut self, delta_ms: u64) -> (fired: bool)
        requires
            old(self).wf(),
            delta_ms <= u64::MAX - WORKER_BALL_SPAWN_TIMER_MS,
        ensures
            final(self).wf(),
            final(self).counter == old(self).counter,
            fired == old(self).spec_fires(delta_ms),
            final(self).timer_elapsed_ms == (old(self).timer_elapsed_ms + delta_ms) % (
            WORKER_BALL_SPAWN_TIMER_MS as int),
    {
        let total = self.timer_elapsed_ms + delta_ms;
        let fired = total >= WORKER_BALL_SPAWN_TIMER_MS;
        self.timer_elapsed_ms = total % WORKER_BALL_SPAWN_TIMER_MS;
        fired
    }

    /// The population gate of the spawn system.
    pub fn can_spawn(&self) -> (r: bool)
        ensures
            r == self.spec_gate_open(),
    {
        self.counter < WORKER_BALL_COUNT_MAX
    }
}

} // verus!
