use panel_sim::participant::{PanelRootSide, Participant, ParticipantColors, SurvivorMap};
use panel_sim::sim::PanelSim;
use panel_sim::trail::{Trail, TrailPool, TrailState};

fn colors() -> ParticipantColors {
    ParticipantColors { a: 1, b: 2, c: 3, d: 4 }
}

fn idle(side: PanelRootSide) -> Trail {
    Trail {
        state: TrailState::Idle { side },
        x: match side {
            PanelRootSide::Left => -500,
            PanelRootSide::Right => 500,
        },
        y: 320,
        color: None,
    }
}

#[test]
fn attach_reuses_idle_of_matching_side() {
    let mut pool = TrailPool::new();
    pool.trails.push(idle(PanelRootSide::Left));
    let idx = pool.attach(42, PanelRootSide::Left, 7, -480);
    // reuse path: the count did not increase
    assert_eq!(idx, 0);
    assert_eq!(pool.trails.len(), 1);
    assert_eq!(pool.trails[0].state, TrailState::Active { ball: 42 });
    assert_eq!(pool.trails[0].color, Some(7));
    assert_eq!((pool.trails[0].x, pool.trails[0].y), (-480, 320));
}

#[test]
fn attach_allocates_only_without_matching_idle() {
    let mut pool = TrailPool::new();
    pool.trails.push(idle(PanelRootSide::Right));
    // an idle trail exists, but of the wrong side: allocation by one
    let idx = pool.attach(42, PanelRootSide::Left, 7, -480);
    assert_eq!(idx, 1);
    assert_eq!(pool.trails.len(), 2);
    assert_eq!(pool.trails[0], idle(PanelRootSide::Right));
    assert_eq!(pool.trails[1].state, TrailState::Active { ball: 42 });
}

#[test]
fn attach_prefers_oldest_idle() {
    let mut pool = TrailPool::new();
    pool.trails.push(idle(PanelRootSide::Left));
    pool.trails.push(idle(PanelRootSide::Left));
    let idx = pool.attach(9, PanelRootSide::Left, 5, -400);
    assert_eq!(idx, 0);
    assert_eq!(pool.trails[1], idle(PanelRootSide::Left));
}

#[test]
fn active_trail_follows_its_ball() {
    let mut sim = PanelSim::new();
    let survivors = SurvivorMap { a: true, b: false, c: false, d: false };
    sim.spawn_workers(1_000, &survivors, &colors()).expect("spawn");
    let id = sim.world.balls[0].id;
    assert!(sim.world.set_ball_motion(id, -450, 100, 3, -8));
    sim.update_trails();
    assert_eq!(sim.pool.trails.len(), 1);
    assert_eq!(sim.pool.trails[0].state, TrailState::Active { ball: id });
    assert_eq!((sim.pool.trails[0].x, sim.pool.trails[0].y), (-450, 100));
}

#[test]
fn vanished_balls_park_trails_on_alternating_sides() {
    let mut sim = PanelSim::new();
    let survivors = SurvivorMap { a: true, b: true, c: false, d: false };
    sim.spawn_workers(1_000, &survivors, &colors()).expect("spawn");
    assert_eq!(sim.pool.trails.len(), 2);
    let ida = sim.world.balls[0].id;
    let idb = sim.world.balls[1].id;
    assert!(sim.world.despawn_ball(ida));
    assert!(sim.world.despawn_ball(idb));
    sim.update_trails();
    // the toggle starts at its initial value: first parks right, the
    // next left, spreading idle trails over both sides
    assert_eq!(sim.pool.trails[0], idle(PanelRootSide::Right));
    assert_eq!(sim.pool.trails[1], idle(PanelRootSide::Left));
    assert!(!sim.pool.go_left);
}

#[test]
fn reuse_after_park_keeps_trail_count() {
    let mut sim = PanelSim::new();
    let survivors = SurvivorMap { a: true, b: true, c: false, d: false };
    sim.spawn_workers(1_000, &survivors, &colors()).expect("round one");
    let ida = sim.world.balls[0].id;
    let idb = sim.world.balls[1].id;
    sim.world.despawn_ball(ida);
    sim.world.despawn_ball(idb);
    sim.update_trails();
    // both trails idle, one per side; the next left-panel round reuses
    // the left one and must reuse before allocating
    sim.spawn_workers(10_000, &survivors, &colors()).expect("round two");
    assert_eq!(sim.world.balls.len(), 2);
    assert_eq!(sim.pool.trails.len(), 3);
    let active = sim
        .pool
        .trails
        .iter()
        .filter(|t| matches!(t.state, TrailState::Active { .. }))
        .count();
    assert_eq!(active, 2);
}

#[test]
fn suppressed_color_on_idle() {
    let mut sim = PanelSim::new();
    let survivors = SurvivorMap { a: true, b: false, c: false, d: false };
    sim.spawn_workers(1_000, &survivors, &colors()).expect("spawn");
    assert_eq!(sim.pool.trails[0].color, Some(1));
    let id = sim.world.balls[0].id;
    sim.world.despawn_ball(id);
    sim.update_trails();
    assert_eq!(sim.pool.trails[0].color, None);
}
