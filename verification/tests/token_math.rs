use whirlpool::errors::ErrorCode;
use whirlpool::math::tick_math::{
    sqrt_price_from_tick_index, MAX_SQRT_PRICE_X64, MIN_SQRT_PRICE_X64,
};
use whirlpool::math::token_math::{
    get_amount_delta_a, get_amount_delta_b, get_next_sqrt_price,
    get_next_sqrt_price_from_a_round_up, get_next_sqrt_price_from_b_round_down,
    increasing_price_order,
};

const ONE: u128 = 1u128 << 64;

#[test]
fn increasing_price_order_sorts() {
    assert_eq!(increasing_price_order(5, 3), (3, 5));
    assert_eq!(increasing_price_order(3, 5), (3, 5));
    assert_eq!(increasing_price_order(4, 4), (4, 4));
}

#[test]
fn amount_delta_a_between_one_and_two() {
    // L * (1/1 - 1/2) = L / 2
    assert_eq!(get_amount_delta_a(ONE, 2 * ONE, 1_000_000_000, true), Ok(500_000_000));
    assert_eq!(get_amount_delta_a(ONE, 2 * ONE, 1_000_000_000, false), Ok(500_000_000));
}

#[test]
fn amount_delta_a_rounds_as_asked() {
    let lower = sqrt_price_from_tick_index(-64);
    let upper = sqrt_price_from_tick_index(64);
    assert_eq!(get_amount_delta_a(lower, upper, 1_000_000_000_000, true), Ok(6_399_690_943));
    assert_eq!(get_amount_delta_a(lower, upper, 1_000_000_000_000, false), Ok(6_399_690_942));
}

#[test]
fn amount_delta_a_takes_the_prices_in_either_order() {
    let lower = sqrt_price_from_tick_index(-64);
    let upper = sqrt_price_from_tick_index(64);
    assert_eq!(
        get_amount_delta_a(upper, lower, 1_000_000_000_000, true),
        get_amount_delta_a(lower, upper, 1_000_000_000_000, true)
    );
    assert_eq!(get_amount_delta_a(lower, lower, 1_000_000_000_000, true), Ok(0));
}

#[test]
fn amount_delta_a_fails_above_64_bits() {
    assert_eq!(
        get_amount_delta_a(MIN_SQRT_PRICE_X64, MAX_SQRT_PRICE_X64, 1u128 << 64, true),
        Err(ErrorCode::TokenMaxExceeded)
    );
    assert_eq!(
        get_amount_delta_a(1, 3, 1u128 << 100, false),
        Err(ErrorCode::TokenMaxExceeded)
    );
}

#[test]
fn amount_delta_a_fails_where_the_product_leaves_192_bits() {
    assert_eq!(
        get_amount_delta_a(ONE, ONE + (1u128 << 90), 1u128 << 102, true),
        Err(ErrorCode::MultiplicationOverflow)
    );
}

#[test]
fn amount_delta_a_fails_at_a_zero_price() {
    assert_eq!(get_amount_delta_a(0, ONE, 1, true), Err(ErrorCode::DivideByZero));
    assert_eq!(get_amount_delta_a(0, 0, 1, true), Err(ErrorCode::DivideByZero));
}

#[test]
fn amount_delta_b_between_one_and_two() {
    assert_eq!(get_amount_delta_b(ONE, 2 * ONE, 1_000_000_000, true), Ok(1_000_000_000));
    assert_eq!(get_amount_delta_b(2 * ONE, ONE, 1_000_000_000, false), Ok(1_000_000_000));
}

#[test]
fn amount_delta_b_rounds_as_asked() {
    let lower = sqrt_price_from_tick_index(-64);
    let upper = sqrt_price_from_tick_index(64);
    assert_eq!(get_amount_delta_b(lower, upper, 1_000_000_000_000, true), Ok(6_399_690_943));
    assert_eq!(get_amount_delta_b(lower, upper, 1_000_000_000_000, false), Ok(6_399_690_942));
}

#[test]
fn amount_delta_b_fails_above_64_bits() {
    assert_eq!(
        get_amount_delta_b(ONE, 2 * ONE, 1u128 << 64, false),
        Err(ErrorCode::MultiplicationShiftRightOverflow)
    );
    assert_eq!(
        get_amount_delta_b(0, ONE + 1, u64::MAX as u128, true),
        Err(ErrorCode::MultiplicationOverflow)
    );
}

#[test]
fn amounts_grow_with_liquidity() {
    let lower = sqrt_price_from_tick_index(-64);
    let upper = sqrt_price_from_tick_index(64);
    let mut last_a = 0;
    let mut last_b = 0;
    for liquidity in [0u128, 1, 1_000, 1_000_000, 1_000_000_007, 1u128 << 60] {
        for round_up in [false, true] {
            let a = get_amount_delta_a(lower, upper, liquidity, round_up).unwrap();
            let b = get_amount_delta_b(lower, upper, liquidity, round_up).unwrap();
            assert!(a >= last_a);
            assert!(b >= last_b);
            if round_up {
                last_a = a;
                last_b = b;
            }
        }
    }
}

#[test]
fn amounts_grow_with_the_width_of_the_range() {
    let liquidity = 1_000_000_000_000u128;
    let mut last_a = 0;
    let mut last_b = 0;
    for half_width in [0, 1, 2, 64, 128, 1000, 20000] {
        let lower = sqrt_price_from_tick_index(-half_width);
        let upper = sqrt_price_from_tick_index(half_width);
        let a = get_amount_delta_a(lower, upper, liquidity, false).unwrap();
        let b = get_amount_delta_b(lower, upper, liquidity, false).unwrap();
        assert!(a >= last_a);
        assert!(b >= last_b);
        last_a = a;
        last_b = b;
    }
}

#[test]
fn next_sqrt_price_from_a_values() {
    let price = sqrt_price_from_tick_index(100);
    assert_eq!(
        get_next_sqrt_price_from_a_round_up(price, 1_000_000_000, 12345, true),
        Ok(18538974117912672215)
    );
    assert_eq!(
        get_next_sqrt_price_from_a_round_up(price, 1_000_000_000, 12345, false),
        Ok(18539434145143640437)
    );
    assert_eq!(get_next_sqrt_price_from_a_round_up(price, 1_000_000_000, 0, true), Ok(price));
    assert_eq!(get_next_sqrt_price_from_a_round_up(price, 0, 0, false), Ok(price));
}

#[test]
fn next_sqrt_price_from_a_fails_where_the_output_exceeds_the_liquidity() {
    assert_eq!(
        get_next_sqrt_price_from_a_round_up(ONE, 1_000, 1_000, false),
        Err(ErrorCode::DivideByZero)
    );
    assert_eq!(
        get_next_sqrt_price_from_a_round_up(ONE, 1_000, 1_001, false),
        Err(ErrorCode::DivideByZero)
    );
    assert_eq!(
        get_next_sqrt_price_from_a_round_up(0, 0, 5, true),
        Err(ErrorCode::DivideByZero)
    );
}

#[test]
fn next_sqrt_price_from_a_fails_outside_the_supported_prices() {
    assert_eq!(
        get_next_sqrt_price_from_a_round_up(ONE, 1, u64::MAX, true),
        Err(ErrorCode::TokenMinSubceeded)
    );
    assert_eq!(
        get_next_sqrt_price_from_a_round_up(MAX_SQRT_PRICE_X64, 1u128 << 40, 1, false),
        Err(ErrorCode::TokenMaxExceeded)
    );
    assert_eq!(
        get_next_sqrt_price_from_a_round_up(ONE, 1_000, 999, false),
        Ok(1000 * ONE)
    );
}

#[test]
fn next_sqrt_price_from_a_fails_where_the_product_leaves_192_bits() {
    assert_eq!(
        get_next_sqrt_price_from_a_round_up(1u128 << 100, 1u128 << 92, 1, true),
        Err(ErrorCode::MultiplicationOverflow)
    );
}

#[test]
fn next_sqrt_price_from_b_values() {
    let price = sqrt_price_from_tick_index(100);
    assert_eq!(
        get_next_sqrt_price_from_b_round_down(price, 1_000_000_000, 12345, true),
        Ok(18539431853729995756)
    );
    assert_eq!(
        get_next_sqrt_price_from_b_round_down(price, 1_000_000_000, 12345, false),
        Ok(18538976403618815867)
    );
    assert_eq!(get_next_sqrt_price_from_b_round_down(ONE, 3, 1, true), Ok(ONE + ONE / 3));
    assert_eq!(get_next_sqrt_price_from_b_round_down(ONE, 3, 1, false), Ok(ONE - ONE / 3 - 1));
}

#[test]
fn next_sqrt_price_from_b_fails_without_liquidity() {
    assert_eq!(
        get_next_sqrt_price_from_b_round_down(ONE, 0, 1, true),
        Err(ErrorCode::DivideByZero)
    );
}

#[test]
fn next_sqrt_price_from_b_fails_where_the_price_leaves_128_bits() {
    assert_eq!(
        get_next_sqrt_price_from_b_round_down(u128::MAX, 1, 1, true),
        Err(ErrorCode::SqrtPriceOutOfBounds)
    );
    assert_eq!(
        get_next_sqrt_price_from_b_round_down(ONE, 1, 2, false),
        Err(ErrorCode::SqrtPriceOutOfBounds)
    );
}

#[test]
fn next_sqrt_price_picks_the_fixed_token() {
    let price = sqrt_price_from_tick_index(100);
    let liquidity = 1_000_000_000u128;
    assert_eq!(
        get_next_sqrt_price(price, liquidity, 12345, true, true),
        get_next_sqrt_price_from_a_round_up(price, liquidity, 12345, true)
    );
    assert_eq!(
        get_next_sqrt_price(price, liquidity, 12345, false, false),
        get_next_sqrt_price_from_a_round_up(price, liquidity, 12345, false)
    );
    assert_eq!(
        get_next_sqrt_price(price, liquidity, 12345, true, false),
        get_next_sqrt_price_from_b_round_down(price, liquidity, 12345, true)
    );
    assert_eq!(
        get_next_sqrt_price(price, liquidity, 12345, false, true),
        get_next_sqrt_price_from_b_round_down(price, liquidity, 12345, false)
    );
}

#[test]
fn amounts_lead_back_to_the_price_they_were_taken_at() {
    let lower = sqrt_price_from_tick_index(0);
    let upper = sqrt_price_from_tick_index(64);
    let liquidity = 100_000_000_000_000_000_000u128;

    let b_up = get_amount_delta_b(lower, upper, liquidity, true).unwrap();
    assert_eq!(b_up, 320496496359801462);
    assert_eq!(get_next_sqrt_price(lower, liquidity, b_up, true, false), Ok(upper));
    let b_down = get_amount_delta_b(lower, upper, liquidity, false).unwrap();
    assert_eq!(get_next_sqrt_price(lower, liquidity, b_down, true, false), Ok(upper - 1));

    let a_up = get_amount_delta_a(lower, upper, liquidity, true).unwrap();
    assert_eq!(a_up, 319472597876776755);
    assert_eq!(get_next_sqrt_price(upper, liquidity, a_up, true, true), Ok(lower));
    let a_down = get_amount_delta_a(lower, upper, liquidity, false).unwrap();
    assert_eq!(get_next_sqrt_price(lower, liquidity, a_down, false, false), Ok(upper));
}

#[test]
fn an_input_is_never_exceeded_and_an_output_never_undershot() {
    let price = sqrt_price_from_tick_index(100);
    for liquidity in [1_000u128, 1_000_000_000, 1u128 << 70] {
        for amount in [1u64, 7, 1_000, 123_456_789] {
            for a_to_b in [false, true] {
                if let Ok(next) = get_next_sqrt_price(price, liquidity, amount, true, a_to_b) {
                    let used = if a_to_b {
                        get_amount_delta_a(price, next, liquidity, true)
                    } else {
                        get_amount_delta_b(price, next, liquidity, true)
                    };
                    if let Ok(used) = used {
                        assert!(used <= amount);
                    }
                }
                if let Ok(next) = get_next_sqrt_price(price, liquidity, amount, false, a_to_b) {
                    let given = if a_to_b {
                        get_amount_delta_b(price, next, liquidity, false)
                    } else {
                        get_amount_delta_a(price, next, liquidity, false)
                    };
                    if let Ok(given) = given {
                        assert!(given >= amount);
                    }
                }
            }
        }
    }
}
