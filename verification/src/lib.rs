//! The data plane of a real-time multiplayer relay: a low-overhead binary
//! encoding layer that turns typed game-state messages into compact wire
//! packets and back, and a player/level registry that tracks which players
//! occupy which game levels.
pub mod data;
pub mod managers;

