//! Event types crossing the simulation boundary: raw physics contact
//! events coming in, gameplay trigger events going out.

use vstd::prelude::*;
use crate::participant::Participant;

verus! {

/// Classification of a trigger zone, carried by the gameplay event it
/// emits.
#[derive(Clone, Copy, Debug, PartialEq, Eq, Structural)]
pub enum TriggerType {
    /// Multiplies the participant's charge by the given small factor.
    Multiply(u8),
    /// Releases a burst of shots.
    BurstShot,
    /// Releases the charged shot.
    ChargedShot,
}

/// Gameplay event emitted when a worker ball touches a trigger zone:
/// exactly one per qualifying contact-begin, consumed by the external
/// effect-application subsystem.
#[derive(Clone, Copy, Debug, PartialEq, Eq, Structural)]
pub struct TriggerEvent {
    pub participant: Participant,
    pub trigger_type: TriggerType,
}

/// A raw physics contact event between two entities, identified by the
/// ids this world assigned them.  The physics engine reports the pair in
/// no particular order.
#[derive(Clone, Copy, Debug, PartialEq, Eq, Structural)]
pub enum ContactEvent {
    /// The two shapes began touching this tick.
    Started(u64, u64),
    /// The two shapes stopped touching this tick.
    Stopped(u64, u64),
}

} // verus!
