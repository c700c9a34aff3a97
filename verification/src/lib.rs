//! Pricing and accounting engine of a concentrated-liquidity market maker.
//!
//! A pool trades two tokens, A and B, along a price curve that is cut into ticks.
//! Liquidity providers place liquidity between two ticks; traders swap against the
//! liquidity that is active at the current price. The engine computes how the price
//! moves as tokens are exchanged, how liquidity starts and stops being active as the
//! price crosses ticks, and what fees and rewards each position has earned.
//!
//! The crate works on exact integers throughout: square-root prices are unsigned Q64.64
//! fixed-point numbers, liquidity is an unsigned 128-bit quantity and token amounts are
//! unsigned 64-bit quantities. It holds no account and moves no token: every operation
//! takes records and returns what is to be written to them and what is to be moved.
//!
//! - [`math`]: 256-bit arithmetic, rounded multiply-divide and multiply-shift, the
//!   conversions between liquidity, price and amounts, the prices of ticks, and one step
//!   of a swap.
//! - [`state`]: ticks and tick arrays, the pool, and positions.
//! - [`util`]: the window of tick arrays that a swap walks.
//! - [`manager`]: the rules of swaps and of changes of liquidity.
//! - [`instructions`]: the operations, as a caller sees them.

pub mod errors;
pub mod instructions;
pub mod manager;
pub mod math;
pub mod state;
pub mod util;
