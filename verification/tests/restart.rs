use panel_sim::participant::{PanelRootSide, Participant, ParticipantColors, SurvivorMap};
use panel_sim::sim::PanelSim;
use panel_sim::spawner::WorkerBallSpawner;
use panel_sim::trail::{Trail, TrailState};

fn colors() -> ParticipantColors {
    ParticipantColors { a: 1, b: 2, c: 3, d: 4 }
}

fn idle(side: PanelRootSide) -> Trail {
    Trail {
        state: TrailState::Idle { side },
        x: match side {
            PanelRootSide::Left => -500,
            PanelRootSide::Right => 500,
        },
        y: 320,
        color: None,
    }
}

#[test]
fn restart_clears_balls_resets_spawner_parks_trails() {
    let mut sim = PanelSim::new();
    let survivors = SurvivorMap { a: true, b: true, c: true, d: false };
    sim.spawn_workers(1_000, &survivors, &colors()).expect("spawn");
    assert_eq!(sim.world.balls.len(), 3);
    assert_eq!(sim.pool.trails.len(), 3);
    sim.restart();
    assert_eq!(sim.world.balls.len(), 0);
    assert_eq!(sim.spawner, WorkerBallSpawner::new());
    // the zones survive a restart
    assert_eq!(sim.world.zones.len(), 10);
    // every trail parked, sides alternating from the initial toggle
    assert_eq!(sim.pool.trails.len(), 3);
    assert_eq!(sim.pool.trails[0], idle(PanelRootSide::Right));
    assert_eq!(sim.pool.trails[1], idle(PanelRootSide::Left));
    assert_eq!(sim.pool.trails[2], idle(PanelRootSide::Right));
    assert!(sim.pool.go_left);
}

#[test]
fn restart_twice_is_restart_once() {
    let mut sim = PanelSim::new();
    let survivors = SurvivorMap { a: true, b: false, c: true, d: true };
    sim.spawn_workers(1_000, &survivors, &colors()).expect("spawn");
    sim.spawn_workers(10_000, &survivors, &colors()).expect("spawn");
    sim.restart();
    let balls_once = sim.world.balls.clone();
    let spawner_once = sim.spawner;
    let trails_once = sim.pool.trails.clone();
    let toggle_once = sim.pool.go_left;
    sim.restart();
    assert_eq!(sim.world.balls, balls_once);
    assert_eq!(sim.spawner, spawner_once);
    assert_eq!(sim.pool.trails, trails_once);
    assert_eq!(sim.pool.go_left, toggle_once);
}

#[test]
fn spawning_resumes_after_restart() {
    let mut sim = PanelSim::new();
    let survivors = SurvivorMap { a: true, b: true, c: true, d: true };
    sim.spawn_workers(1_000, &survivors, &colors()).expect("spawn");
    sim.restart();
    // the timer is back at its initial phase: the next round fires
    // one trail lifetime in, and reuses the parked trails
    let trail_count = sim.pool.trails.len();
    sim.spawn_workers(1_000, &survivors, &colors()).expect("spawn after restart");
    assert_eq!(sim.world.balls.len(), 4);
    assert_eq!(sim.spawner.counter, 1);
    // two idle trails of each side were parked: all four reused
    assert_eq!(sim.pool.trails.len(), trail_count);
}

#[test]
fn lone_survivor_scenario_fresh_trail() {
    // left panel, A alive and B dead, no idle trail anywhere: one ball
    // for A, one freshly allocated trail
    let mut sim = PanelSim::new();
    let survivors = SurvivorMap { a: true, b: false, c: false, d: false };
    sim.spawn_workers(1_000, &survivors, &colors()).expect("spawn");
    assert_eq!(sim.world.balls.len(), 1);
    let ball = sim.world.balls[0];
    assert_eq!(ball.participant, Participant::A);
    assert_eq!(sim.pool.trails.len(), 1);
    assert_eq!(sim.pool.trails[0].state, TrailState::Active { ball: ball.id });
    assert_eq!(sim.pool.trails[0].color, Some(1));
}

#[test]
fn lone_survivor_scenario_reuses_oldest_left_trail() {
    // left panel, A alive and B dead, two idle left-tagged trails in
    // the pool: the oldest one is reused, nothing is allocated
    let mut sim = PanelSim::new();
    sim.pool.trails.push(idle(PanelRootSide::Left));
    sim.pool.trails.push(idle(PanelRootSide::Left));
    let survivors = SurvivorMap { a: true, b: false, c: false, d: false };
    sim.spawn_workers(1_000, &survivors, &colors()).expect("spawn");
    assert_eq!(sim.world.balls.len(), 1);
    let ball = sim.world.balls[0];
    assert_eq!(sim.pool.trails.len(), 2);
    assert_eq!(sim.pool.trails[0].state, TrailState::Active { ball: ball.id });
    assert_eq!(sim.pool.trails[1], idle(PanelRootSide::Left));
}
