//! The trigger translator: raw physics contact-begin events become
//! gameplay trigger events, exactly one per contact that pairs a
//! trigger zone with a worker ball — unless a restart arrived this
//! tick, in which case the whole pending batch is discarded, since the
//! contacts may reference entities the restart removes.

use vstd::prelude::*;
use crate::events::{ContactEvent, TriggerEvent};
use crate::world::{
    spec_ball_lookup, spec_zone_lookup, PanelWorld, TriggerZone, WorkerBall,
};

verus! {

/// The gameplay event a contact-begin between `a` and `b` yields, if
/// either entity resolves to a trigger zone and either resolves to a
/// worker ball (`a` is consulted before `b` on both questions).
pub open spec fn contact_trigger(
    zones: Seq<TriggerZone>,
    balls: Seq<WorkerBall>,
    a: u64,
    b: u64,
) -> Option<TriggerEvent> {
    let zone = if spec_zone_lookup(zones, a) is Some {
        spec_zone_lookup(zones, a)
    } else {
        spec_zone_lookup(zones, b)
    };
    let ball = if spec_ball_lookup(balls, a) is Some {
        spec_ball_lookup(balls, a)
    } else {
        spec_ball_lookup(balls, b)
    };
    match (zone, ball) {
        (Some(z), Some(wb)) => Some(
            TriggerEvent { participant: wb.participant, trigger_type: z.trigger_type },
        ),
        _ => None,
    }
}

/// The gameplay event one contact event yields: contact-end events are
/// not this translator's concern and yield none.
pub open spec fn contact_event_trigger(
    zones: Seq<TriggerZone>,
    balls: Seq<WorkerBall>,
    e: ContactEvent,
) -> Option<TriggerEvent> {
    match e {
        ContactEvent::Started(a, b) => contact_trigger(zones, balls, a, b),
        ContactEvent::Stopped(_, _) => None,
    }
}

/// The full batch translated in order, qualifying contacts only.
pub open spec fn translated_events(
    zones: Seq<TriggerZone>,
    balls: Seq<WorkerBall>,
    contacts: Seq<ContactEvent>,
) -> Seq<TriggerEvent>
    decreases contacts.len(),
{
    if contacts.len() == 0 {
        Seq::<TriggerEvent>::empty()
    } else {
        let front = translated_events(zones, balls, contacts.drop_last());
        match contact_event_trigger(zones, balls, contacts.last()) {
            Some(e) => front.push(e),
            None => front,
        }
    }
}

/// Translates this tick's batch of contact events into gameplay
/// trigger events.  If a restart signal arrived this tick the batch is
/// discarded whole and nothing is emitted; otherwise each contact-begin
/// pairing a trigger zone with a worker ball emits exactly one event
/// carrying the ball owner's identity and the zone's type, and every
/// other contact is ignored.
pub fn translate_contacts(
    world: &PanelWorld,
    contacts: &Vec<ContactEvent>,
    restart_pending: bool,
) -> (events: Vec<TriggerEvent>)
    requires
        world.wf(),
    ensures
        restart_pending ==> events@ == Seq::<TriggerEvent>::empty(),
        !restart_pending ==> events@ == translated_events(
            world.zones@,
            world.balls@,
            contacts@,
        ),
{
    let mut events: Vec<TriggerEvent> = Vec::new();
    if restart_pending {
        return events;
    }
    let mut i: usize = 0;
    while i < contacts.len()
        invariant
            world.wf(),
            i <= contacts@.len(),
            events@ == translated_events(world.zones@, world.balls@, contacts@.take(i as int)),
        decreases contacts@.len() - i,
    {
        match contacts[i] {
            ContactEvent::Started(a, b) => {
                let zone = match world.zone_by_id(a) {
                    Some(z) => Some(z),
                    None => world.zone_by_id(b),
                };
                let ball = match world.ball_by_id(a) {
                    Some(wb) => Some(wb),
                    None => world.ball_by_id(b),
                };
                match (zone, ball) {
                    (Some(z), Some(wb)) => {
                        events.push(
                            TriggerEvent {
                                participant: wb.participant,
                                trigger_type: z.trigger_type,
                            },
                        );
                    },
                    _ => {},
                }
            },
            ContactEvent::Stopped(_, _) => {},
        }
        proof {
            assert(contacts@.take(i as int + 1).drop_last() =~= contacts@.take(i as int));
            assert(contacts@.take(i as int + 1).last() == contacts@[i as int]);
        }
        i += 1;
    }
    proof {
        assert(contacts@.take(contacts@.len() as int) =~= contacts@);
    }
    events
}

/// Whether a contact event is a contact-begin that pairs one trigger
/// zone with one worker ball: one entity resolves to a zone and not to
/// a ball, the other to a ball and not to a zone.
pub open spec fn is_zone_ball_begin(
    zones: Seq<TriggerZone>,
    balls: Seq<WorkerBall>,
    e: ContactEvent,
) -> bool {
    match e {
        ContactEvent::Started(a, b) => (spec_zone_lookup(zones, a) is Some && spec_ball_lookup(
            balls,
            b,
        ) is Some && spec_zone_lookup(zones, b) is None && spec_ball_lookup(balls, a) is None) || (
        spec_zone_lookup(zones, b) is Some && spec_ball_lookup(balls, a) is Some
            && spec_zone_lookup(zones, a) is None && spec_ball_lookup(balls, b) is None),
        ContactEvent::Stopped(_, _) => false,
    }
}

/// Trigger exactness: a batch of contact-begin events, each pairing one
/// trigger zone with one worker ball, translates (absent a restart) to
/// exactly one gameplay event per contact, in order, each carrying the
/// owning participant of the contact's ball and the type of its zone.
pub proof fn lemma_trigger_exactness(
    zones: Seq<TriggerZone>,
    balls: Seq<WorkerBall>,
    contacts: Seq<ContactEvent>,
)
    requires
        forall|i: int|
            0 <= i < contacts.len() ==> is_zone_ball_begin(zones, balls, #[trigger] contacts[i]),
    ensures
        translated_events(zones, balls, contacts).len() == contacts.len(),
        forall|i: int|
            0 <= i < contacts.len() ==> Some(#[trigger] translated_events(zones, balls, contacts)[i])
                == contact_event_trigger(zones, balls, contacts[i]),
    decreases contacts.len(),
{
    if contacts.len() == 0 {
    } else {
        let front = contacts.drop_last();
        assert forall|i: int|
            0 <= i < front.len() implies is_zone_ball_begin(zones, balls, #[trigger] front[i]) by {
            assert(front[i] == contacts[i]);
        }
        lemma_trigger_exactness(zones, balls, front);
        let last = contacts.last();
        assert(is_zone_ball_begin(zones, balls, last));
        assert(contact_event_trigger(zones, balls, last) is Some);
        assert forall|i: int|
            0 <= i < contacts.len() implies Some(
            #[trigger] translated_events(zones, balls, contacts)[i],
        ) == contact_event_trigger(zones, balls, contacts[i]) by {
            if i < contacts.len() - 1 {
                assert(front[i] == contacts[i]);
                assert(translated_events(zones, balls, contacts)[i] == translated_events(
                    zones,
                    balls,
                    front,
                )[i]);
            }
        }
    }
}

} // verus!
