use whirlpool::errors::ErrorCode;
use whirlpool::math::swap_math::{compute_swap, SwapStepComputation};
use whirlpool::math::tick_math::sqrt_price_from_tick_index;

const ONE: u128 = 1u128 << 64;

#[test]
fn a_step_that_uses_up_a_fixed_input() {
    let target = sqrt_price_from_tick_index(5631);
    let step = compute_swap(1000, 3000, 1_000_000_000, ONE, target, true, false).unwrap();
    assert_eq!(
        step,
        SwapStepComputation {
            amount_in: 997,
            amount_out: 996,
            next_price: 18446762465113393104,
            fee_amount: 3,
        }
    );
    assert_eq!(step.amount_in + step.fee_amount, 1000);
}

#[test]
fn a_step_that_uses_up_a_fixed_output() {
    let target = sqrt_price_from_tick_index(5631);
    let step = compute_swap(500, 3000, 1_000_000_000, ONE, target, false, false).unwrap();
    assert_eq!(
        step,
        SwapStepComputation {
            amount_in: 501,
            amount_out: 500,
            next_price: 18446753297086200160,
            fee_amount: 2,
        }
    );
}

#[test]
fn a_step_that_reaches_its_target() {
    let up = sqrt_price_from_tick_index(128);
    let step = compute_swap(10_000_000, 3000, 1_000_000_000, ONE, up, true, false).unwrap();
    assert_eq!(
        step,
        SwapStepComputation {
            amount_in: 6420202,
            amount_out: 6379245,
            next_price: up,
            fee_amount: 19319,
        }
    );
    let down = sqrt_price_from_tick_index(-128);
    let step = compute_swap(10_000_000, 3000, 1_000_000_000, ONE, down, true, true).unwrap();
    assert_eq!(
        step,
        SwapStepComputation {
            amount_in: 6420202,
            amount_out: 6379245,
            next_price: down,
            fee_amount: 19319,
        }
    );
    let step = compute_swap(10_000_000, 3000, 1_000_000_000, ONE, down, false, true).unwrap();
    assert_eq!(step.amount_out, 6379245);
    assert_eq!(step.amount_in, 6420202);
    assert_eq!(step.next_price, down);
}

#[test]
fn a_step_without_a_fee() {
    let down = sqrt_price_from_tick_index(-128);
    let step = compute_swap(10_000_000, 0, 1_000_000_000, ONE, down, true, true).unwrap();
    assert_eq!(step.fee_amount, 0);
    assert_eq!(step.amount_in, 6420202);
}

#[test]
fn a_step_without_liquidity_moves_to_the_target_for_nothing() {
    let up = sqrt_price_from_tick_index(128);
    let step = compute_swap(1000, 3000, 0, ONE, up, true, false).unwrap();
    assert_eq!(
        step,
        SwapStepComputation { amount_in: 0, amount_out: 0, next_price: up, fee_amount: 0 }
    );
}

#[test]
fn a_step_fails_as_its_amounts_do() {
    assert_eq!(
        compute_swap(1000, 3000, u128::MAX, ONE, 3 * ONE, true, false),
        Err(ErrorCode::MultiplicationShiftRightOverflow)
    );
    assert_eq!(
        compute_swap(1000, 3000, 1u128 << 100, 1, 3, true, true),
        Err(ErrorCode::TokenMaxExceeded)
    );
}
