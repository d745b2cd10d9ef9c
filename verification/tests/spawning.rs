use panel_sim::geometry::circles_overlap_at;
use panel_sim::oracle::{find_spawn_pair, find_spawn_x};
use panel_sim::participant::{PanelRootSide, Participant, ParticipantColors, SurvivorMap};
use panel_sim::sim::PanelSim;
use panel_sim::spawner::WorkerBallSpawner;
use panel_sim::world::WorkerBall;

fn colors() -> ParticipantColors {
    ParticipantColors { a: 1, b: 2, c: 3, d: 4 }
}

fn all_alive() -> SurvivorMap {
    SurvivorMap { a: true, b: true, c: true, d: true }
}

#[test]
fn overlap_formula_exact() {
    // distance 9 < diameter 10: overlap; distance 10: none
    assert!(circles_overlap_at(0, 0, 9, 0, ));
    assert!(!circles_overlap_at(0, 0, 10, 0));
    // 6-8-10 right triangle: distance exactly 10, no overlap
    assert!(!circles_overlap_at(0, 0, 6, 8));
    assert!(circles_overlap_at(0, 0, 6, 7));
}

#[test]
fn timer_phase_and_fire() {
    let mut s = WorkerBallSpawner::new();
    assert_eq!(s.timer_elapsed_ms, 9_000);
    assert_eq!(s.counter, 0);
    assert!(!s.tick(999));
    assert_eq!(s.timer_elapsed_ms, 9_999);
    assert!(s.tick(1));
    assert_eq!(s.timer_elapsed_ms, 0);
    assert!(s.tick(10_000));
    assert_eq!(s.timer_elapsed_ms, 0);
    s.counter = 3;
    s.reset();
    assert_eq!(s.timer_elapsed_ms, 9_000);
    assert_eq!(s.counter, 0);
}

#[test]
fn oracle_stays_in_span_on_empty_panel() {
    let balls: Vec<WorkerBall> = Vec::new();
    let x = find_spawn_x(&balls, PanelRootSide::Left).expect("empty panel must place");
    assert!(-130 <= x && x < 130);
}

#[test]
fn oracle_pair_spacing() {
    let balls: Vec<WorkerBall> = Vec::new();
    let (xa, xb) = find_spawn_pair(&balls, PanelRootSide::Right).expect("empty panel must place");
    assert!(-130 <= xa && xa < 130);
    assert!(-130 <= xb && xb < 130);
    assert!((xa - xb).abs() > 10);
}

#[test]
fn first_round_spawns_all_survivors() {
    let mut sim = PanelSim::new();
    let (left, right) = sim
        .spawn_workers(1_000, &all_alive(), &colors())
        .expect("placement on empty panels");
    assert_eq!(left.len(), 2);
    assert_eq!(right.len(), 2);
    assert_eq!(sim.world.balls.len(), 4);
    assert_eq!(sim.spawner.counter, 1);
    let owners: Vec<Participant> = sim.world.balls.iter().map(|b| b.participant).collect();
    assert_eq!(
        owners,
        vec![Participant::A, Participant::B, Participant::C, Participant::D]
    );
    // every ball at spawn height, at rest, inside its panel's span
    for b in sim.world.balls.iter() {
        assert_eq!(b.y, 320);
        assert_eq!((b.vx, b.vy), (0, 0));
        match b.participant {
            Participant::A | Participant::B => assert!(-630 <= b.x && b.x < -370),
            Participant::C | Participant::D => assert!(370 <= b.x && b.x < 630),
        }
    }
}

#[test]
fn spawned_balls_never_overlap() {
    let mut sim = PanelSim::new();
    sim.spawn_workers(1_000, &all_alive(), &colors()).expect("round one");
    for _ in 0..4 {
        sim.update_trails();
        sim.spawn_workers(10_000, &all_alive(), &colors()).expect("later round");
    }
    let balls = &sim.world.balls;
    for i in 0..balls.len() {
        for j in (i + 1)..balls.len() {
            let (a, b) = (&balls[i], &balls[j]);
            assert!(
                !circles_overlap_at(a.x, a.y, b.x, b.y),
                "balls {} and {} overlap",
                a.id,
                b.id
            );
        }
    }
}

#[test]
fn no_tick_no_spawn() {
    let mut sim = PanelSim::new();
    let (left, right) = sim.spawn_workers(500, &all_alive(), &colors()).expect("no fire");
    assert!(left.is_empty() && right.is_empty());
    assert_eq!(sim.world.balls.len(), 0);
    assert_eq!(sim.spawner.counter, 0);
    assert_eq!(sim.spawner.timer_elapsed_ms, 9_500);
}

#[test]
fn capped_round_counter_gates_spawning_but_timer_advances() {
    let mut sim = PanelSim::new();
    sim.spawner.counter = 6;
    let (left, right) = sim.spawn_workers(1_000, &all_alive(), &colors()).expect("gated");
    assert!(left.is_empty() && right.is_empty());
    assert_eq!(sim.world.balls.len(), 0);
    assert_eq!(sim.spawner.counter, 6);
    // the timer kept advancing internally: 9000 + 1000 wraps to 0
    assert_eq!(sim.spawner.timer_elapsed_ms, 0);
}

#[test]
fn dead_participants_get_no_ball() {
    let mut sim = PanelSim::new();
    let survivors = SurvivorMap { a: false, b: true, c: false, d: false };
    let (left, right) = sim.spawn_workers(1_000, &survivors, &colors()).expect("single");
    assert_eq!(left.len(), 1);
    assert_eq!(right.len(), 0);
    assert_eq!(sim.world.balls.len(), 1);
    assert_eq!(sim.world.balls[0].participant, Participant::B);
}

#[test]
fn all_dead_round_spawns_nothing_but_counts() {
    let mut sim = PanelSim::new();
    let survivors = SurvivorMap { a: false, b: false, c: false, d: false };
    // no placement loop runs, so the round cannot fail
    let (left, right) = sim.spawn_workers(1_000, &survivors, &colors()).expect("owed Ok");
    assert!(left.is_empty() && right.is_empty());
    assert_eq!(sim.world.balls.len(), 0);
    assert_eq!(sim.spawner.counter, 1);
}

#[test]
fn saturated_panel_reports_placement_exhausted() {
    let mut sim = PanelSim::new();
    // wall the left panel's whole spawn line with balls 10 apart
    let mut x: i64 = -130;
    while x < 130 {
        sim.world.spawn_ball(Participant::A, x);
        x += 10;
    }
    let n = sim.world.balls.len();
    let survivors = SurvivorMap { a: true, b: false, c: false, d: false };
    let r = sim.spawn_workers(1_000, &survivors, &colors());
    assert!(r.is_err());
    // the failed round changed nothing but the timer
    assert_eq!(sim.world.balls.len(), n);
    assert_eq!(sim.spawner.counter, 0);
    assert_eq!(sim.pool.trails.len(), 0);
}
