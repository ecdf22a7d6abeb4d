//! Server-side interest management for a fixed-step multiplayer simulation:
//! a coarse room partition, a distance-driven relevance table, the connection
//! lifecycle that feeds them, input-driven movement and one-shot timers.

pub mod invariants;
pub mod movement;
pub mod pair_set;
pub mod protocol;
pub mod relevance;
pub mod rooms;
pub mod server;
pub mod timer;
pub mod world;
