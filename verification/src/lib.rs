//! Simulation core of a two-panel arcade game.
//!
//! Two mirrored play-fields ("panels") receive small falling balls
//! ("workers") spawned on behalf of game participants.  The balls fall
//! through static obstacles and pass through trigger zones at the bottom,
//! which emit gameplay events back to the rest of the game.  This crate
//! holds the verified logic of that subsystem: collision-aware randomized
//! placement of newly spawned balls, the pooled visual-trail system, the
//! translator from raw contact events to gameplay trigger events, the
//! zone-exit recycler, and the restart protocol.  Rendering, asset loading
//! and the physics engine's own stepping are external collaborators.

pub mod config;
pub mod events;
pub mod geometry;
pub mod oracle;
pub mod participant;
pub mod plan;
pub mod recycler;
pub mod sim;
pub mod triggers;
mod rng;
pub mod spawner;
pub mod trail;
pub mod world;
