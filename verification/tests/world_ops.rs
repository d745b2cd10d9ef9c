use panel_sim::participant::Participant;
use panel_sim::world::{PanelWorld, WorkerBall};

#[test]
fn spawn_ball_assigns_fresh_ids() {
    let mut w = PanelWorld::new();
    let a = w.spawn_ball(Participant::A, -20);
    let b = w.spawn_ball(Participant::D, 20);
    assert_eq!(a, 10);
    assert_eq!(b, 11);
    assert_eq!(w.next_id, 12);
    assert_eq!(
        w.ball_by_id(a),
        Some(WorkerBall { id: 10, participant: Participant::A, x: -520, y: 320, vx: 0, vy: 0 })
    );
    assert_eq!(
        w.ball_by_id(b),
        Some(WorkerBall { id: 11, participant: Participant::D, x: 520, y: 320, vx: 0, vy: 0 })
    );
}

#[test]
fn despawn_removes_exactly_the_named_ball() {
    let mut w = PanelWorld::new();
    let a = w.spawn_ball(Participant::A, 0);
    let b = w.spawn_ball(Participant::B, 50);
    assert!(w.despawn_ball(a));
    assert_eq!(w.balls.len(), 1);
    assert_eq!(w.balls[0].id, b);
    assert!(w.ball_by_id(a).is_none());
    // a second removal of the same id finds nothing
    assert!(!w.despawn_ball(a));
    assert_eq!(w.balls.len(), 1);
}

#[test]
fn motion_updates_touch_only_position_and_velocity() {
    let mut w = PanelWorld::new();
    let a = w.spawn_ball(Participant::C, 0);
    assert!(w.set_ball_motion(a, 480, -100, -3, 9));
    let ball = w.ball_by_id(a).unwrap();
    assert_eq!(ball.participant, Participant::C);
    assert_eq!((ball.x, ball.y, ball.vx, ball.vy), (480, -100, -3, 9));
    // an id that is not live reports not found and changes nothing
    assert!(!w.set_ball_motion(999, 0, 0, 0, 0));
    assert_eq!(w.ball_by_id(a).unwrap(), ball);
}
