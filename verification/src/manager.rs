//! The rules by which swaps and changes of liquidity move the records on.

pub mod liquidity_manager;
pub mod position_manager;
pub mod swap_bounds;
pub mod swap_manager;
pub mod tick_manager;
pub mod whirlpool_manager;
