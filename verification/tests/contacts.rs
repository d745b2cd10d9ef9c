use panel_sim::events::{ContactEvent, TriggerType};
use panel_sim::participant::{PanelRootSide, Participant};
use panel_sim::sim::PanelSim;
use panel_sim::world::{PanelWorld, TriggerZone};

#[test]
fn world_setup_has_ten_zones_and_both_roots() {
    let w = PanelWorld::new();
    assert_eq!(w.zones.len(), 10);
    assert_eq!(w.balls.len(), 0);
    assert_eq!(w.next_id, 10);
    assert_eq!(w.left_root.0, PanelRootSide::Left);
    assert_eq!(w.right_root.0, PanelRootSide::Right);
    assert_eq!(
        w.zones[0],
        TriggerZone {
            id: 0,
            side: PanelRootSide::Left,
            x_offset: 0,
            trigger_type: TriggerType::Multiply(4),
        }
    );
    assert_eq!(w.zones[3].trigger_type, TriggerType::BurstShot);
    assert_eq!(w.zones[3].x_offset, -104);
    assert_eq!(w.zones[9].trigger_type, TriggerType::ChargedShot);
    assert_eq!(w.zones[9].side, PanelRootSide::Right);
    for z in w.zones.iter().take(5) {
        assert_eq!(z.side, PanelRootSide::Left);
    }
    for z in w.zones.iter().skip(5) {
        assert_eq!(z.side, PanelRootSide::Right);
    }
}

#[test]
fn trigger_exactness_on_scripted_contacts() {
    let mut sim = PanelSim::new();
    let a = sim.world.spawn_ball(Participant::A, 0);
    let c = sim.world.spawn_ball(Participant::C, 50);
    // three contact-begins, each pairing one zone with one ball, in
    // both argument orders
    let contacts = vec![
        ContactEvent::Started(0, a),
        ContactEvent::Started(c, 8),
        ContactEvent::Started(1, a),
    ];
    let events = sim.translate(&contacts, false);
    assert_eq!(events.len(), 3);
    assert_eq!(events[0].participant, Participant::A);
    assert_eq!(events[0].trigger_type, TriggerType::Multiply(4));
    assert_eq!(events[1].participant, Participant::C);
    assert_eq!(events[1].trigger_type, TriggerType::BurstShot);
    assert_eq!(events[2].participant, Participant::A);
    assert_eq!(events[2].trigger_type, TriggerType::Multiply(2));
}

#[test]
fn restart_discards_pending_contacts() {
    let mut sim = PanelSim::new();
    let a = sim.world.spawn_ball(Participant::A, 0);
    let contacts = vec![
        ContactEvent::Started(0, a),
        ContactEvent::Started(1, a),
        ContactEvent::Started(2, a),
    ];
    let events = sim.translate(&contacts, true);
    assert_eq!(events.len(), 0);
}

#[test]
fn unresolvable_contacts_are_ignored() {
    let mut sim = PanelSim::new();
    let a = sim.world.spawn_ball(Participant::A, 0);
    let b = sim.world.spawn_ball(Participant::B, 50);
    let contacts = vec![
        // zone with zone: no ball side
        ContactEvent::Started(0, 1),
        // ball with ball: no zone side
        ContactEvent::Started(a, b),
        // an entity that no longer resolves at all
        ContactEvent::Started(9999, a),
        // a contact-end is not the translator's concern
        ContactEvent::Stopped(0, a),
    ];
    let events = sim.translate(&contacts, false);
    assert_eq!(events.len(), 0);
}

#[test]
fn zone_exit_recycles_ball_to_top_of_its_panel() {
    let mut sim = PanelSim::new();
    let a = sim.world.spawn_ball(Participant::A, 0);
    let other = sim.world.spawn_ball(Participant::B, 100);
    // the ball fell into the left centre zone and leaves it
    assert!(sim.world.set_ball_motion(a, -500, -250, 12, -34));
    let contacts = vec![ContactEvent::Stopped(0, a)];
    sim.recycle(&contacts).expect("recycle placement");
    let ball = sim
        .world
        .ball_by_id(a)
        .expect("the recycled ball is still live");
    assert_eq!(ball.y, 320);
    assert_eq!((ball.vx, ball.vy), (0, 0));
    assert!(-630 <= ball.x && ball.x < -370);
    // no overlap with the other live ball
    let o = sim.world.ball_by_id(other).unwrap();
    let (dx, dy) = (ball.x - o.x, ball.y - o.y);
    assert!(dx * dx + dy * dy >= 100);
}

#[test]
fn recycler_ignores_contacts_without_a_zone_or_ball() {
    let mut sim = PanelSim::new();
    let a = sim.world.spawn_ball(Participant::A, 0);
    assert!(sim.world.set_ball_motion(a, -500, -250, 12, -34));
    let before = sim.world.balls.clone();
    let contacts = vec![
        ContactEvent::Stopped(a, 9999),
        ContactEvent::Stopped(0, 1),
        ContactEvent::Started(0, a),
    ];
    sim.recycle(&contacts).expect("nothing to place");
    assert_eq!(sim.world.balls, before);
}

#[test]
fn zone_lookup_by_id() {
    let w = PanelWorld::new();
    let z = w.zone_by_id(4).expect("zone 4 exists");
    assert_eq!(z.trigger_type, TriggerType::ChargedShot);
    assert_eq!(z.side, PanelRootSide::Left);
    assert_eq!(z.x_offset, 104);
    assert!(w.zone_by_id(10).is_none());
}
