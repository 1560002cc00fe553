//! Authoritative simulation and state synchronisation for a multiplayer tank game.
//!
//! All quantities are integers in fixed units: lengths in thousandths of a world
//! unit, angles in thousandths of a radian, durations in microseconds.

pub mod ai;
pub mod clock;
pub mod config;
pub mod ecs;
pub mod events;
pub mod game_state;
pub mod ids;
pub mod keys;
pub mod network;
pub mod physics;
pub mod proto;
pub mod server;
pub mod snapshot;
pub mod state_sync;
pub mod store;
pub mod table;
pub mod text;
pub mod types;
pub mod validation;
