//! Participants and the panel sides that serve them.
//!
//! Four participants play at once, statically paired two to a panel:
//! the left panel serves `A` and `B`, the right panel serves `C` and `D`.

use vstd::prelude::*;

verus! {

/// One of the four fixed game participants.
#[derive(Clone, Copy, Debug, PartialEq, Eq, Structural)]
pub enum Participant {
    A,
    B,
    C,
    D,
}

/// Which of the two mirrored panels an entity belongs to.
#[derive(Clone, Copy, Debug, PartialEq, Eq, Structural)]
pub enum PanelRootSide {
    Left,
    Right,
}

impl PanelRootSide {
    /// The static assignment of participants to panels: the left panel
    /// serves `A` and `B`, the right panel serves `C` and `D`.
    pub open spec fn spec_for_participant(p: Participant) -> PanelRootSide {
        match p {
            Participant::A | Participant::B => PanelRootSide::Left,
            Participant::C | Participant::D => PanelRootSide::Right,
        }
    }

    /// Maps a participant to the panel side that serves it.
    pub fn for_participant(p: Participant) -> (side: PanelRootSide)
        ensures
            side == PanelRootSide::spec_for_participant(p),
    {
        match p {
            Participant::A | Participant::B => PanelRootSide::Left,
            Participant::C | Participant::D => PanelRootSide::Right,
        }
    }
}

/// The externally owned liveness ("survivor") snapshot, one flag per
/// participant, read by the spawner once per tick.
#[derive(Clone, Copy, Debug, PartialEq, Eq, Structural)]
pub struct SurvivorMap {
    pub a: bool,
    pub b: bool,
    pub c: bool,
    pub d: bool,
}

impl SurvivorMap {
    /// Whether the given participant is still alive in this snapshot.
    pub open spec fn spec_alive(self, p: Participant) -> bool {
        match p {
            Participant::A => self.a,
            Participant::B => self.b,
            Participant::C => self.c,
            Participant::D => self.d,
        }
    }

    /// Reads the liveness flag of one participant.
    pub fn alive(&self, p: Participant) -> (r: bool)
        ensures
            r == self.spec_alive(p),
    {
        match p {
            Participant::A => self.a,
            Participant::B => self.b,
            Participant::C => self.c,
            Participant::D => self.d,
        }
    }
}

/// Opaque per-participant visual handles (colors), supplied by the game's
/// asset layer; this core only attaches them to new balls and trails.
#[derive(Clone, Copy, Debug, PartialEq, Eq, Structural)]
pub struct ParticipantColors {
    pub a: u32,
    pub b: u32,
    pub c: u32,
    pub d: u32,
}

impl ParticipantColors {
    /// The color handle recorded for the given participant.
    pub open spec fn spec_color(self, p: Participant) -> u32 {
        match p {
            Participant::A => self.a,
            Participant::B => self.b,
            Participant::C => self.c,
            Participant::D => self.d,
        }
    }

    /// Reads the color handle of one participant.
    pub fn color(&self, p: Participant) -> (r: u32)
        ensures
            r == self.spec_color(p),
    {
        match p {
            Participant::A => self.a,
            Participant::B => self.b,
            Participant::C => self.c,
            Participant::D => self.d,
        }
    }
}

} // verus!
