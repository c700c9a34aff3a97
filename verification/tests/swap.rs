use whirlpool::errors::ErrorCode;
use whirlpool::instructions;
use whirlpool::manager::swap_manager::{
    calculate_update, swap, swap_step_once, PostSwapUpdate, SwapParameters, SwapState,
};
use whirlpool::math::tick_math::{
    sqrt_price_from_tick_index, MAX_SQRT_PRICE_X64, MIN_SQRT_PRICE_X64,
};
use whirlpool::math::token_math::{get_amount_delta_a, get_next_sqrt_price};
use whirlpool::state::tick::{Tick, TickArray, TickUpdate};
use whirlpool::state::whirlpool::{Whirlpool, WhirlpoolRewardInfo};
use whirlpool::util::swap_tick_sequence::SwapTickSequence;

const ONE: u128 = 1u128 << 64;

fn pool() -> Whirlpool {
    let mut pool = Whirlpool::initialize(64, 3000, 300, ONE, 0).unwrap();
    pool.liquidity = 1_000_000_000;
    pool
}

fn array_with(start: i32, ticks: &[(i32, i128)]) -> TickArray {
    let mut array = TickArray::initialize(start, 64).unwrap();
    for (tick, liquidity_net) in ticks {
        let update = TickUpdate {
            initialized: true,
            liquidity_net: *liquidity_net,
            liquidity_gross: liquidity_net.unsigned_abs(),
            fee_growth_outside_a: 0,
            fee_growth_outside_b: 0,
            reward_growths_outside: [0, 0, 0],
        };
        array.update_tick(*tick, 64, &update).unwrap();
    }
    array
}

fn parameters(pool: &Whirlpool, limit: u128, input: bool, a_to_b: bool) -> SwapParameters {
    SwapParameters {
        tick_spacing: pool.tick_spacing,
        fee_rate: pool.fee_rate,
        protocol_fee_rate: pool.protocol_fee_rate,
        protocol_fee_owed: if a_to_b { pool.protocol_fee_owed_a } else { pool.protocol_fee_owed_b },
        fee_growth_global_a: pool.fee_growth_global_a,
        fee_growth_global_b: pool.fee_growth_global_b,
        reward_infos: pool.reward_infos,
        sqrt_price_limit: limit,
        amount_specified_is_input: input,
        a_to_b,
    }
}

#[test]
fn a_small_swap_stays_within_the_current_tick() {
    let pool = pool();
    let empty = array_with(0, &[]);
    let mut sequence = SwapTickSequence::new(empty, None, None);
    let update =
        instructions::swap(&pool, &mut sequence, 1000, 0, MAX_SQRT_PRICE_X64, true, false, 0)
            .unwrap();
    // All of the input is used, the price has risen, and no tick was crossed.
    assert_eq!(update.amount_b, 1000);
    assert!(update.next_sqrt_price > pool.sqrt_price);
    assert_eq!(update.next_liquidity, pool.liquidity);
    assert_eq!(sequence.arrays, vec![empty]);
    // The output is what the price formulas give for the input less the fee.
    let next = get_next_sqrt_price(pool.sqrt_price, pool.liquidity, 997, true, false).unwrap();
    assert_eq!(update.next_sqrt_price, next);
    assert_eq!(
        update.amount_a,
        get_amount_delta_a(pool.sqrt_price, next, pool.liquidity, false).unwrap()
    );
    assert_eq!(
        update,
        PostSwapUpdate {
            amount_a: 996,
            amount_b: 1000,
            next_liquidity: 1_000_000_000,
            next_tick_index: 0,
            next_sqrt_price: 18446762465113393104,
            next_fee_growth_global: 55340232221,
            next_reward_infos: pool.reward_infos,
            next_protocol_fee: 0,
        }
    );
}

#[test]
fn a_swap_upward_crosses_a_tick() {
    let pool = pool();
    let mut sequence =
        SwapTickSequence::new(array_with(0, &[(128, 500_000_000)]), None, None);
    let update = swap(&pool, &mut sequence, 10_000_000, MAX_SQRT_PRICE_X64, true, false, 0).unwrap();
    assert_eq!(
        update,
        PostSwapUpdate {
            amount_a: 9875674,
            amount_b: 10_000_000,
            next_liquidity: 1_500_000_000,
            next_tick_index: 174,
            next_sqrt_price: 18608830689728848152,
            next_fee_growth_global: 473122092002501,
            next_reward_infos: pool.reward_infos,
            next_protocol_fee: 899,
        }
    );
    let crossed = *sequence.get_tick(0, 128, 64).unwrap();
    assert_eq!(
        crossed,
        Tick {
            initialized: true,
            liquidity_net: 500_000_000,
            liquidity_gross: 500_000_000,
            fee_growth_outside_a: 0,
            fee_growth_outside_b: 345691983941316,
            reward_growths_outside: [0, 0, 0],
        }
    );
}

#[test]
fn a_swap_downward_crosses_ticks_in_two_arrays() {
    let pool = pool();
    let mut sequence = SwapTickSequence::new(
        array_with(0, &[(0, 100_000_000)]),
        Some(array_with(-5632, &[(-128, 400_000_000)])),
        None,
    );
    let update = swap(&pool, &mut sequence, 20_000_000, MIN_SQRT_PRICE_X64, true, true, 0).unwrap();
    assert_eq!(
        update,
        PostSwapUpdate {
            amount_a: 20_000_000,
            amount_b: 19340315,
            next_liquidity: 500_000_000,
            next_tick_index: -684,
            next_sqrt_price: 17827353434522391813,
            next_fee_growth_global: 1870721210003032,
            next_reward_infos: pool.reward_infos,
            next_protocol_fee: 1799,
        }
    );
    assert_eq!(sequence.get_tick(0, 0, 64).unwrap().fee_growth_outside_a, 0);
    assert_eq!(sequence.get_tick(1, -128, 64).unwrap().fee_growth_outside_a, 345691983941316);
    assert_eq!(sequence.get_tick(1, -128, 64).unwrap().liquidity_net, 400_000_000);
}

#[test]
fn a_swap_of_a_fixed_output() {
    let pool = pool();
    let mut sequence = SwapTickSequence::new(array_with(0, &[]), None, None);
    let update = swap(&pool, &mut sequence, 500, MAX_SQRT_PRICE_X64, false, false, 0).unwrap();
    assert_eq!(update.amount_a, 500);
    assert_eq!(update.amount_b, 503);
    assert_eq!(update.next_sqrt_price, 18446753297086200160);
    assert_eq!(update.next_fee_growth_global, 36893488147);
    assert_eq!(update.next_tick_index, 0);
}

#[test]
fn a_swap_stops_at_the_price_limit() {
    let pool = pool();
    let limit = sqrt_price_from_tick_index(64);
    let mut sequence = SwapTickSequence::new(array_with(0, &[]), None, None);
    let update = swap(&pool, &mut sequence, 1_000_000_000, limit, true, false, 0).unwrap();
    assert_eq!(update.next_sqrt_price, limit);
    assert_eq!(update.next_tick_index, 64);
    assert_eq!(update.amount_a, 3194725);
    assert_eq!(update.amount_b, 3214609);
    assert_eq!(update.next_protocol_fee, 289);
    assert_eq!(update.next_fee_growth_global, 172569290809552);
}

#[test]
fn a_swap_at_the_price_limit_trades_nothing() {
    let pool = pool();
    let mut sequence = SwapTickSequence::new(array_with(0, &[]), None, None);
    let update = swap(&pool, &mut sequence, 1000, ONE, true, false, 0).unwrap();
    assert_eq!(update.amount_a, 0);
    assert_eq!(update.amount_b, 0);
    assert_eq!(update.next_sqrt_price, ONE);
    assert_eq!(update.next_liquidity, pool.liquidity);
}

#[test]
fn a_swap_is_refused_before_it_begins() {
    let pool = pool();
    let mut sequence = SwapTickSequence::new(array_with(0, &[]), None, None);
    assert_eq!(
        swap(&pool, &mut sequence, 0, MAX_SQRT_PRICE_X64, true, false, 0),
        Err(ErrorCode::ZeroTradableAmount)
    );
    assert_eq!(
        swap(&pool, &mut sequence, 1000, MAX_SQRT_PRICE_X64 + 1, true, false, 0),
        Err(ErrorCode::SqrtPriceOutOfBounds)
    );
    assert_eq!(
        swap(&pool, &mut sequence, 1000, MIN_SQRT_PRICE_X64 - 1, true, true, 0),
        Err(ErrorCode::SqrtPriceOutOfBounds)
    );
    assert_eq!(
        swap(&pool, &mut sequence, 1000, ONE - 1, true, false, 0),
        Err(ErrorCode::InvalidSqrtPriceLimitDirection)
    );
    assert_eq!(
        swap(&pool, &mut sequence, 1000, ONE + 1, true, true, 0),
        Err(ErrorCode::InvalidSqrtPriceLimitDirection)
    );
    let mut no_spacing = pool;
    no_spacing.tick_spacing = 0;
    assert_eq!(
        swap(&no_spacing, &mut sequence, 1000, MAX_SQRT_PRICE_X64, true, false, 0),
        Err(ErrorCode::InvalidTickSpacing)
    );
    let mut high_fee = pool;
    high_fee.fee_rate = 10_001;
    assert_eq!(
        swap(&high_fee, &mut sequence, 1000, MAX_SQRT_PRICE_X64, true, false, 0),
        Err(ErrorCode::FeeRateMaxExceeded)
    );
    let mut high_share = pool;
    high_share.protocol_fee_rate = 2_501;
    assert_eq!(
        swap(&high_share, &mut sequence, 1000, MAX_SQRT_PRICE_X64, true, false, 0),
        Err(ErrorCode::ProtocolFeeRateMaxExceeded)
    );
    let mut later = pool;
    later.reward_last_updated_timestamp = 10;
    assert_eq!(
        swap(&later, &mut sequence, 1000, MAX_SQRT_PRICE_X64, true, false, 9),
        Err(ErrorCode::InvalidTimestamp)
    );
}

#[test]
fn a_swap_fails_where_the_arrays_run_out() {
    let pool = pool();
    let mut upward = SwapTickSequence::new(array_with(0, &[]), None, None);
    assert_eq!(
        swap(&pool, &mut upward, 10_000_000_000, MAX_SQRT_PRICE_X64, true, false, 0),
        Err(ErrorCode::InvalidTickArraySequence)
    );
    let mut downward = SwapTickSequence::new(array_with(0, &[]), None, None);
    assert_eq!(
        swap(&pool, &mut downward, 1_000_000, MIN_SQRT_PRICE_X64, true, true, 0),
        Err(ErrorCode::TickArraySequenceInvalidIndex)
    );
}

#[test]
fn a_swap_is_held_against_the_threshold() {
    let pool = pool();
    let mut sequence = SwapTickSequence::new(array_with(0, &[]), None, None);
    assert_eq!(
        instructions::swap(&pool, &mut sequence, 1000, 997, MAX_SQRT_PRICE_X64, true, false, 0),
        Err(ErrorCode::TokenMinSubceeded)
    );
    assert!(
        instructions::swap(&pool, &mut sequence, 1000, 996, MAX_SQRT_PRICE_X64, true, false, 0)
            .is_ok()
    );
    assert_eq!(
        instructions::swap(&pool, &mut sequence, 500, 502, MAX_SQRT_PRICE_X64, false, false, 0),
        Err(ErrorCode::TokenMaxExceeded)
    );
    assert!(
        instructions::swap(&pool, &mut sequence, 500, 503, MAX_SQRT_PRICE_X64, false, false, 0)
            .is_ok()
    );
    assert_eq!(
        instructions::swap(&pool, &mut sequence, 0, 0, MAX_SQRT_PRICE_X64, true, false, 0),
        Err(ErrorCode::ZeroTradableAmount)
    );
}

#[test]
fn a_swap_brings_the_rewards_up_to_date() {
    let mut pool = pool();
    pool.reward_infos[1] = WhirlpoolRewardInfo {
        initialized: true,
        emissions_per_second_x64: 5u128 << 64,
        growth_global_x64: 7,
    };
    let mut sequence =
        SwapTickSequence::new(array_with(0, &[(128, 500_000_000)]), None, None);
    let update = swap(&pool, &mut sequence, 10_000_000, MAX_SQRT_PRICE_X64, true, false, 10).unwrap();
    assert_eq!(update.next_reward_infos[1].growth_global_x64, 7 + 922337203685);
    assert_eq!(update.next_reward_infos[0], pool.reward_infos[0]);
    let crossed = *sequence.get_tick(0, 128, 64).unwrap();
    assert_eq!(crossed.reward_growths_outside, [0, 7 + 922337203685, 0]);
}

#[test]
fn crossing_a_tick_changes_the_liquidity_by_its_net_liquidity() {
    let pool = pool();
    let tick = Tick {
        initialized: true,
        liquidity_net: 300,
        liquidity_gross: 300,
        fee_growth_outside_a: 10,
        fee_growth_outside_b: 20,
        reward_growths_outside: [0, 0, 0],
    };
    let mut rising = parameters(&pool, MAX_SQRT_PRICE_X64, true, false);
    rising.fee_growth_global_a = 1000;
    let (update, liquidity) = calculate_update(&tick, &rising, 2000, 1000).unwrap();
    assert_eq!(liquidity, 1300);
    assert_eq!(update.fee_growth_outside_a, 990);
    assert_eq!(update.fee_growth_outside_b, 1980);
    assert_eq!(update.liquidity_net, 300);
    assert!(update.initialized);

    let mut falling = parameters(&pool, MIN_SQRT_PRICE_X64, true, true);
    falling.fee_growth_global_b = 1000;
    let (update, liquidity) = calculate_update(&tick, &falling, 2000, 1000).unwrap();
    assert_eq!(liquidity, 700);
    assert_eq!(update.fee_growth_outside_a, 1990);
    assert_eq!(update.fee_growth_outside_b, 980);

    assert_eq!(
        calculate_update(&tick, &falling, 0, 299),
        Err(ErrorCode::LiquidityUnderflow)
    );
    assert_eq!(
        calculate_update(&tick, &rising, 0, u128::MAX - 299),
        Err(ErrorCode::LiquidityOverflow)
    );
    assert_eq!(calculate_update(&tick, &rising, 0, u128::MAX - 300).unwrap().1, u128::MAX);
    let lowest = Tick { liquidity_net: i128::MIN, ..tick };
    assert_eq!(calculate_update(&lowest, &falling, 0, 5).unwrap().1, (1u128 << 127) + 5);
    assert_eq!(
        calculate_update(&lowest, &rising, 0, 5),
        Err(ErrorCode::LiquidityUnderflow)
    );
}

#[test]
fn a_swap_takes_no_more_steps_than_initialized_ticks_and_one() {
    let pool = pool();
    let ticks = [(128, 1000i128), (1280, 1000), (5568, 1000)];
    let mut sequence = SwapTickSequence::new(array_with(0, &ticks), None, None);
    let parameters = parameters(&pool, MAX_SQRT_PRICE_X64, true, false);
    let mut state = SwapState {
        amount_remaining: 200_000_000,
        amount_calculated: 0,
        sqrt_price: pool.sqrt_price,
        tick_index: pool.tick_current_index,
        liquidity: pool.liquidity,
        array_index: 0,
        protocol_fee: 0,
        fee_growth_global_input: 0,
    };
    let mut steps = 0;
    while state.amount_remaining > 0 && state.sqrt_price != MAX_SQRT_PRICE_X64 {
        state = swap_step_once(&parameters, &state, &mut sequence).unwrap();
        steps += 1;
    }
    assert_eq!(steps, 3);
    assert_eq!(state.liquidity, 1_000_002_000);
    assert!(steps <= ticks.len() + 1);
}

fn agree(sqrt_price: u128, tick_index: i32) -> bool {
    sqrt_price_from_tick_index(tick_index) <= sqrt_price
        && sqrt_price <= sqrt_price_from_tick_index(tick_index + 1)
}

#[test]
fn a_swap_leaves_price_and_tick_in_agreement() {
    let pool = pool();
    assert!(agree(pool.sqrt_price, pool.tick_current_index));
    let ticks = [(128, 500_000_000i128), (1280, -200_000_000)];
    for amount in [1u64, 1000, 6_420_202 + 19_319, 10_000_000, 20_000_000] {
        for input in [false, true] {
            let mut sequence = SwapTickSequence::new(array_with(0, &ticks), None, None);
            let update =
                swap(&pool, &mut sequence, amount, MAX_SQRT_PRICE_X64, input, false, 0).unwrap();
            assert!(agree(update.next_sqrt_price, update.next_tick_index));
            assert!(update.next_sqrt_price >= pool.sqrt_price);
            assert_eq!(if input { update.amount_b } else { update.amount_a }, amount);

            let below = [(-128, 500_000_000i128), (-1280, 200_000_000)];
            let mut sequence = SwapTickSequence::new(array_with(-5632, &below), None, None);
            let mut falling = pool;
            falling.tick_current_index = -1;
            falling.sqrt_price = (1u128 << 64) - 1;
            let update =
                swap(&falling, &mut sequence, amount, MIN_SQRT_PRICE_X64, input, true, 0).unwrap();
            assert!(agree(update.next_sqrt_price, update.next_tick_index));
            assert!(update.next_sqrt_price <= falling.sqrt_price);
            assert_eq!(if input { update.amount_a } else { update.amount_b }, amount);
        }
    }
}

#[test]
fn a_step_fails_where_the_other_amount_exceeds_64_bits() {
    let pool = pool();
    let mut sequence = SwapTickSequence::new(array_with(0, &[]), None, None);
    let state = SwapState {
        amount_remaining: 1000,
        amount_calculated: u64::MAX - 995,
        sqrt_price: pool.sqrt_price,
        tick_index: pool.tick_current_index,
        liquidity: pool.liquidity,
        array_index: 0,
        protocol_fee: 0,
        fee_growth_global_input: 0,
    };
    let rising = parameters(&pool, MAX_SQRT_PRICE_X64, true, false);
    assert_eq!(
        swap_step_once(&rising, &state, &mut sequence),
        Err(ErrorCode::AmountCalcOverflow)
    );
    let fits = SwapState { amount_calculated: u64::MAX - 996, ..state };
    let next = swap_step_once(&rising, &fits, &mut sequence).unwrap();
    assert_eq!(next.amount_calculated, u64::MAX);
    assert_eq!(next.amount_remaining, 0);
}

#[test]
fn a_swap_fails_where_the_fee_growth_would_leave_128_bits() {
    let mut pool = Whirlpool::initialize(5042, 3000, 0, ONE, 0).unwrap();
    pool.liquidity = 1;
    pool.fee_growth_global_b = u128::MAX;
    let empty = TickArray::initialize(0, 5042).unwrap();
    let mut sequence = SwapTickSequence::new(empty, None, None);
    assert_eq!(
        instructions::swap(&pool, &mut sequence, 1000, 0, MAX_SQRT_PRICE_X64, true, false, 0),
        Err(ErrorCode::FeeGrowthOverflow)
    );
    assert_eq!(sequence.arrays, vec![empty]);
    // With room for the growth of the fee of 3, the same swap succeeds.
    pool.fee_growth_global_b = u128::MAX - (3u128 << 64);
    let update =
        instructions::swap(&pool, &mut sequence, 1000, 0, MAX_SQRT_PRICE_X64, true, false, 0)
            .unwrap();
    assert_eq!(update.next_fee_growth_global, u128::MAX);
    pool.fee_growth_global_b = u128::MAX - (3u128 << 64) + 1;
    assert_eq!(
        swap(&pool, &mut sequence, 1000, MAX_SQRT_PRICE_X64, true, false, 0),
        Err(ErrorCode::FeeGrowthOverflow)
    );
}

#[test]
fn a_swap_fails_where_the_protocol_fees_would_leave_64_bits() {
    let mut pool = pool();
    pool.protocol_fee_owed_b = u64::MAX - 898;
    let before = array_with(0, &[(128, 500_000_000)]);
    let mut sequence = SwapTickSequence::new(before, None, None);
    assert_eq!(
        swap(&pool, &mut sequence, 10_000_000, MAX_SQRT_PRICE_X64, true, false, 0),
        Err(ErrorCode::ProtocolFeeOverflow)
    );
    // The tick that was crossed before the failure is as it was.
    assert_eq!(sequence.arrays, vec![before]);
    pool.protocol_fee_owed_b = u64::MAX - 899;
    let update = swap(&pool, &mut sequence, 10_000_000, MAX_SQRT_PRICE_X64, true, false, 0).unwrap();
    assert_eq!(update.next_protocol_fee, 899);
    let mut after = pool;
    assert_eq!(
        after.update_after_swap(
            update.next_liquidity,
            update.next_tick_index,
            update.next_sqrt_price,
            update.next_fee_growth_global,
            update.next_reward_infos,
            update.next_protocol_fee,
            false,
            0,
        ),
        Ok(())
    );
    assert_eq!(after.protocol_fee_owed_b, u64::MAX);
    // The fees of the other token do not count.
    pool.protocol_fee_owed_b = 0;
    pool.protocol_fee_owed_a = u64::MAX;
    let mut sequence = SwapTickSequence::new(before, None, None);
    assert!(swap(&pool, &mut sequence, 10_000_000, MAX_SQRT_PRICE_X64, true, false, 0).is_ok());
}

#[test]
fn a_swap_that_fails_leaves_the_tick_arrays_as_they_were() {
    let pool = pool();
    let before = array_with(0, &[(128, 500_000_000)]);
    // The swap crosses the tick and then runs out of arrays.
    let mut sequence = SwapTickSequence::new(before, None, None);
    assert_eq!(
        swap(&pool, &mut sequence, 10_000_000_000, MAX_SQRT_PRICE_X64, true, false, 0),
        Err(ErrorCode::InvalidTickArraySequence)
    );
    assert_eq!(sequence.arrays, vec![before]);
    // The swap crosses the tick and then misses the threshold.
    assert_eq!(
        instructions::swap(
            &pool, &mut sequence, 10_000_000, 9875675, MAX_SQRT_PRICE_X64, true, false, 0
        ),
        Err(ErrorCode::TokenMinSubceeded)
    );
    assert_eq!(sequence.arrays, vec![before]);
    // A swap that is refused touches nothing.
    for (amount, limit, a_to_b) in [
        (0u64, MAX_SQRT_PRICE_X64, false),
        (1000, MAX_SQRT_PRICE_X64 + 1, false),
        (1000, ONE - 1, false),
        (1000, ONE + 1, true),
    ] {
        assert!(instructions::swap(&pool, &mut sequence, amount, 0, limit, true, a_to_b, 0).is_err());
        assert_eq!(sequence.arrays, vec![before]);
    }
    // The same swap writes the crossed tick where it succeeds.
    assert!(instructions::swap(
        &pool, &mut sequence, 10_000_000, 9875674, MAX_SQRT_PRICE_X64, true, false, 0
    )
    .is_ok());
    assert!(sequence.arrays != vec![before]);
    assert_eq!(sequence.duplicate().arrays, sequence.arrays);
}

#[test]
fn a_swap_never_lowers_the_fee_growth() {
    let mut pool = pool();
    pool.fee_growth_global_a = 12345;
    pool.fee_growth_global_b = 1u128 << 100;
    for amount in [1u64, 10, 1000, 10_000_000] {
        for input in [false, true] {
            let ticks = [(128, 500_000_000i128)];
            let mut sequence = SwapTickSequence::new(array_with(0, &ticks), None, None);
            let update =
                swap(&pool, &mut sequence, amount, MAX_SQRT_PRICE_X64, input, false, 0).unwrap();
            assert!(update.next_fee_growth_global >= pool.fee_growth_global_b);
            let below = [(-128, 500_000_000i128)];
            let mut sequence = SwapTickSequence::new(array_with(-5632, &below), None, None);
            let mut falling = pool;
            falling.tick_current_index = -1;
            falling.sqrt_price = ONE - 1;
            let update =
                swap(&falling, &mut sequence, amount, MIN_SQRT_PRICE_X64, input, true, 0).unwrap();
            assert!(update.next_fee_growth_global >= pool.fee_growth_global_a);
        }
    }
}
