//! The records of the engine: ticks and tick arrays, the pool, and positions.

pub mod position;
pub mod tick;
pub mod whirlpool;
