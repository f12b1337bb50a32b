//! Deterministic, rollback-capable simulation core of a networked 2D game.

pub mod config;
pub mod number;
pub mod vector2;
pub mod transform;
pub mod input;
pub mod physics;
pub mod sim;
pub mod rollback;
