//! Deterministic simulation core of a two-dimensional arena game.
//!
//! Every quantity is an integer. Lengths and coordinates are counted in
//! thousandths of a world unit and durations in milliseconds, so that each
//! peer of a session computes the same state from the same inputs.

pub mod geometry;
pub mod input_handler;
pub mod generator;
pub mod network_manager;
pub mod utilities;
pub mod barriers;
pub mod player_module;
pub mod projectile;
pub mod simulation;
