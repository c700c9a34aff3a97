//! Fixed-point arithmetic and the price, amount and tick conversions built on it.

pub mod bit_math;
pub mod liquidity_math;
pub mod swap_math;
pub mod tick_math;
pub mod tick_order;
pub mod token_math;
pub mod u256_math;
