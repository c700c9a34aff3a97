//! Helpers of the swap: the window of tick arrays that a swap walks.

pub mod swap_tick_sequence;
