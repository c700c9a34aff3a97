use whirlpool::errors::ErrorCode;
use whirlpool::instructions::{
    close_position, collect_fees, collect_reward, decrease_liquidity, increase_liquidity,
    open_position, update_fees_and_rewards,
};
use whirlpool::manager::liquidity_manager::{
    calculate_liquidity_token_deltas, calculate_modify_liquidity,
};
use whirlpool::manager::position_manager::next_position_modify_liquidity_update;
use whirlpool::manager::tick_manager::{
    next_fee_growths_inside, next_reward_growths_inside, next_tick_cross_update,
    next_tick_modify_liquidity_update,
};
use whirlpool::manager::whirlpool_manager::{
    next_whirlpool_liquidity, next_whirlpool_reward_infos,
};
use whirlpool::math::liquidity_math::{add_liquidity_delta, convert_to_liquidity_delta};
use whirlpool::state::position::{Position, PositionRewardInfo, PositionUpdate};
use whirlpool::state::tick::{Tick, TickArray, TickUpdate};
use whirlpool::state::whirlpool::{Whirlpool, WhirlpoolRewardInfo};

const ONE: u128 = 1u128 << 64;

fn pool() -> Whirlpool {
    let mut pool = Whirlpool::initialize(64, 3000, 300, ONE, 0).unwrap();
    pool.fee_growth_global_a = 1000;
    pool.fee_growth_global_b = 2000;
    pool
}

fn arrays() -> (TickArray, TickArray) {
    (TickArray::initialize(-5632, 64).unwrap(), TickArray::initialize(0, 64).unwrap())
}

fn apply(
    pool: &mut Whirlpool,
    position: &mut Position,
    lower: &mut TickArray,
    upper: &mut TickArray,
    change: &whirlpool::instructions::LiquidityChange,
    timestamp: u64,
) {
    position.update(&change.update.position_update);
    lower
        .update_tick(position.tick_lower_index, pool.tick_spacing, &change.update.tick_lower_update)
        .unwrap();
    upper
        .update_tick(position.tick_upper_index, pool.tick_spacing, &change.update.tick_upper_update)
        .unwrap();
    pool.update_rewards_and_liquidity(
        change.update.reward_infos,
        change.update.whirlpool_liquidity,
        timestamp,
    );
}

#[test]
fn open_position_starts_empty() {
    let position = open_position(&pool(), -128, 128).unwrap();
    assert_eq!(position.tick_lower_index, -128);
    assert_eq!(position.tick_upper_index, 128);
    assert_eq!(position.liquidity, 0);
    assert!(position.is_position_empty());
    assert_eq!(position.fee_growth_checkpoint_a, 0);
    assert_eq!(position.fee_owed_b, 0);
}

#[test]
fn open_position_refuses_misordered_ticks() {
    assert_eq!(open_position(&pool(), 100, 50), Err(ErrorCode::InvalidTickIndex));
    assert_eq!(open_position(&pool(), 128, 64), Err(ErrorCode::InvalidTickIndex));
    assert_eq!(open_position(&pool(), 64, 64), Err(ErrorCode::InvalidTickIndex));
}

#[test]
fn open_position_refuses_ticks_off_the_grid_or_out_of_range() {
    assert_eq!(open_position(&pool(), -100, 128), Err(ErrorCode::InvalidTickIndex));
    assert_eq!(open_position(&pool(), -128, 100), Err(ErrorCode::InvalidTickIndex));
    assert_eq!(open_position(&pool(), -443648, 128), Err(ErrorCode::InvalidTickIndex));
    assert_eq!(open_position(&pool(), -128, 443648), Err(ErrorCode::InvalidTickIndex));
    assert!(open_position(&pool(), -443584, 443584).is_ok());
}

#[test]
fn increase_liquidity_of_zero_fails_whatever_the_rest() {
    let pool = pool();
    let (lower, upper) = arrays();
    let position = open_position(&pool, -128, 128).unwrap();
    assert_eq!(
        increase_liquidity(&pool, &position, &lower, &upper, 0, u64::MAX, u64::MAX, 0),
        Err(ErrorCode::LiquidityZero)
    );
    assert_eq!(
        increase_liquidity(&pool, &position, &upper, &lower, 0, 0, 0, 77),
        Err(ErrorCode::LiquidityZero)
    );
    let mut broken = pool;
    broken.tick_spacing = 0;
    assert_eq!(
        increase_liquidity(&broken, &position, &lower, &upper, 0, 1, 2, 3),
        Err(ErrorCode::LiquidityZero)
    );
    assert_eq!(
        decrease_liquidity(&pool, &position, &lower, &upper, 0, 0, 0, 0),
        Err(ErrorCode::LiquidityZero)
    );
}

#[test]
fn increase_liquidity_within_the_range() {
    let pool = pool();
    let (lower, upper) = arrays();
    let position = open_position(&pool, -128, 128).unwrap();
    let change =
        increase_liquidity(&pool, &position, &lower, &upper, 1_000_000_000, 6379246, 6379246, 0)
            .unwrap();
    assert_eq!(change.delta_a, 6379246);
    assert_eq!(change.delta_b, 6379246);
    assert_eq!(change.update.whirlpool_liquidity, 1_000_000_000);
    assert_eq!(
        change.update.tick_lower_update,
        TickUpdate {
            initialized: true,
            liquidity_net: 1_000_000_000,
            liquidity_gross: 1_000_000_000,
            fee_growth_outside_a: 1000,
            fee_growth_outside_b: 2000,
            reward_growths_outside: [0, 0, 0],
        }
    );
    assert_eq!(
        change.update.tick_upper_update,
        TickUpdate {
            initialized: true,
            liquidity_net: -1_000_000_000,
            liquidity_gross: 1_000_000_000,
            fee_growth_outside_a: 0,
            fee_growth_outside_b: 0,
            reward_growths_outside: [0, 0, 0],
        }
    );
    assert_eq!(change.update.position_update.liquidity, 1_000_000_000);
    assert_eq!(change.update.position_update.fee_owed_a, 0);
    assert_eq!(change.update.position_update.fee_growth_checkpoint_a, 0);
}

#[test]
fn increase_liquidity_is_held_against_the_maximum() {
    let pool = pool();
    let (lower, upper) = arrays();
    let position = open_position(&pool, -128, 128).unwrap();
    assert_eq!(
        increase_liquidity(&pool, &position, &lower, &upper, 1_000_000_000, 6379245, 6379246, 0),
        Err(ErrorCode::TokenMaxExceeded)
    );
    assert_eq!(
        increase_liquidity(&pool, &position, &lower, &upper, 1_000_000_000, 6379246, 6379245, 0),
        Err(ErrorCode::TokenMaxExceeded)
    );
}

#[test]
fn liquidity_above_the_signed_range_is_too_high() {
    let pool = pool();
    let (lower, upper) = arrays();
    let position = open_position(&pool, -128, 128).unwrap();
    assert_eq!(
        increase_liquidity(&pool, &position, &lower, &upper, 1u128 << 127, u64::MAX, u64::MAX, 0),
        Err(ErrorCode::LiquidityTooHigh)
    );
    assert_eq!(
        decrease_liquidity(&pool, &position, &lower, &upper, u128::MAX, 0, 0, 0),
        Err(ErrorCode::LiquidityTooHigh)
    );
    assert_eq!(convert_to_liquidity_delta(5, true), Ok(5));
    assert_eq!(convert_to_liquidity_delta(5, false), Ok(-5));
    assert_eq!(convert_to_liquidity_delta(i128::MAX as u128, false), Ok(-i128::MAX));
}

#[test]
fn changes_of_liquidity_fail_on_a_missing_tick() {
    let pool = pool();
    let (lower, upper) = arrays();
    let position = open_position(&pool, -128, 128).unwrap();
    assert_eq!(
        increase_liquidity(&pool, &position, &upper, &upper, 1000, u64::MAX, u64::MAX, 0),
        Err(ErrorCode::TickNotFound)
    );
    assert_eq!(
        increase_liquidity(&pool, &position, &lower, &lower, 1000, u64::MAX, u64::MAX, 0),
        Err(ErrorCode::TickNotFound)
    );
    let mut later = pool;
    later.reward_last_updated_timestamp = 5;
    assert_eq!(
        increase_liquidity(&later, &position, &lower, &upper, 1000, u64::MAX, u64::MAX, 4),
        Err(ErrorCode::InvalidTimestamp)
    );
}

#[test]
fn decrease_liquidity_gives_back_the_amounts_rounded_down() {
    let mut pool = pool();
    let (mut lower, mut upper) = arrays();
    let mut position = open_position(&pool, -128, 128).unwrap();
    let change = increase_liquidity(
        &pool, &position, &lower, &upper, 1_000_000_000, u64::MAX, u64::MAX, 0,
    )
    .unwrap();
    apply(&mut pool, &mut position, &mut lower, &mut upper, &change, 0);
    assert_eq!(pool.liquidity, 1_000_000_000);
    assert_eq!(position.liquidity, 1_000_000_000);

    assert_eq!(
        decrease_liquidity(&pool, &position, &lower, &upper, 1_000_000_000, 6379246, 0, 0),
        Err(ErrorCode::TokenMinSubceeded)
    );
    assert_eq!(
        decrease_liquidity(&pool, &position, &lower, &upper, 1_000_000_001, 0, 0, 0),
        Err(ErrorCode::LiquidityUnderflow)
    );
    let change =
        decrease_liquidity(&pool, &position, &lower, &upper, 1_000_000_000, 6379245, 6379245, 0)
            .unwrap();
    assert_eq!((change.delta_a, change.delta_b), (6379245, 6379245));
    assert_eq!(change.update.whirlpool_liquidity, 0);
    assert!(!change.update.tick_lower_update.initialized);
    assert!(!change.update.tick_upper_update.initialized);
    assert_eq!(change.update.tick_lower_update.liquidity_gross, 0);
    apply(&mut pool, &mut position, &mut lower, &mut upper, &change, 0);
    assert_eq!(position.liquidity, 0);
    assert_eq!(lower, arrays().0);
    assert_eq!(upper, arrays().1);
    assert_eq!(close_position(&position), Ok(()));
}

#[test]
fn token_deltas_depend_on_where_the_price_lies() {
    let position = open_position(&pool(), 64, 128).unwrap();
    assert_eq!(
        calculate_liquidity_token_deltas(0, ONE, &position, 1_000_000_000),
        Ok((3184520, 0))
    );
    let position = open_position(&pool(), -128, -64).unwrap();
    assert_eq!(
        calculate_liquidity_token_deltas(0, ONE, &position, 1_000_000_000),
        Ok((0, 3184520))
    );
    let position = open_position(&pool(), -128, 128).unwrap();
    assert_eq!(
        calculate_liquidity_token_deltas(0, ONE, &position, 1_000_000_000),
        Ok((6379246, 6379246))
    );
    assert_eq!(
        calculate_liquidity_token_deltas(0, ONE, &position, -1_000_000_000),
        Ok((6379245, 6379245))
    );
    assert_eq!(
        calculate_liquidity_token_deltas(0, ONE, &position, 0),
        Err(ErrorCode::LiquidityZero)
    );
}

#[test]
fn fees_are_settled_with_the_liquidity_before_the_change() {
    let mut position = open_position(&pool(), -128, 128).unwrap();
    position.liquidity = 1_000_000_000;
    position.fee_owed_a = 7;
    position.fee_growth_checkpoint_b = 1u128 << 60;
    let update = next_position_modify_liquidity_update(
        &position,
        1_000_000_000,
        5u128 << 60,
        6u128 << 60,
        &[5u128 << 60, 0, 0],
    )
    .unwrap();
    assert_eq!(
        update,
        PositionUpdate {
            liquidity: 2_000_000_000,
            fee_growth_checkpoint_a: 5u128 << 60,
            fee_owed_a: 7 + 312_500_000,
            fee_growth_checkpoint_b: 6u128 << 60,
            fee_owed_b: 312_500_000,
            reward_infos: [
                PositionRewardInfo { growth_inside_checkpoint: 5u128 << 60, amount_owed: 312_500_000 },
                PositionRewardInfo { growth_inside_checkpoint: 0, amount_owed: 0 },
                PositionRewardInfo { growth_inside_checkpoint: 0, amount_owed: 0 },
            ],
        }
    );
}

#[test]
fn a_position_without_liquidity_earns_nothing() {
    let position = open_position(&pool(), -128, 128).unwrap();
    let update =
        next_position_modify_liquidity_update(&position, 5, 5u128 << 60, 6u128 << 60, &[9, 9, 9])
            .unwrap();
    assert_eq!(update.fee_owed_a, 0);
    assert_eq!(update.fee_owed_b, 0);
    assert_eq!(update.reward_infos[0].amount_owed, 0);
    assert_eq!(update.liquidity, 5);
    assert_eq!(update.fee_growth_checkpoint_a, 5u128 << 60);
    assert_eq!(
        next_position_modify_liquidity_update(&position, -1, 0, 0, &[0, 0, 0]),
        Err(ErrorCode::LiquidityUnderflow)
    );
}

#[test]
fn earnings_that_exceed_64_bits_fail() {
    let mut position = open_position(&pool(), -128, 128).unwrap();
    position.liquidity = 1u128 << 100;
    position.fee_owed_a = 3;
    assert_eq!(
        next_position_modify_liquidity_update(&position, 0, 1u128 << 100, 0, &[0, 0, 0]),
        Err(ErrorCode::AmountOwedOverflow)
    );
    assert_eq!(
        next_position_modify_liquidity_update(&position, 0, 0, 0, &[0, 1u128 << 28, 0]),
        Err(ErrorCode::AmountOwedOverflow)
    );
    // Earnings of 2^64 - 4 fit together with the 3 that were owed before.
    position.liquidity = 1u128 << 64;
    let update =
        next_position_modify_liquidity_update(&position, 0, u64::MAX as u128 - 3, 0, &[0, 0, 0])
            .unwrap();
    assert_eq!(update.fee_owed_a, u64::MAX);
    assert_eq!(
        next_position_modify_liquidity_update(&position, 0, u64::MAX as u128 - 2, 0, &[0, 0, 0]),
        Err(ErrorCode::AmountOwedOverflow)
    );
}

#[test]
fn fee_growth_inside_a_range() {
    let lower = Tick { initialized: true, fee_growth_outside_a: 100, fee_growth_outside_b: 1, ..Tick::new() };
    let upper = Tick { initialized: true, fee_growth_outside_a: 30, fee_growth_outside_b: 2, ..Tick::new() };
    assert_eq!(next_fee_growths_inside(0, &lower, -128, &upper, 128, 1000, 10), (870, 7));
    assert_eq!(next_fee_growths_inside(-200, &lower, -128, &upper, 128, 1000, 10), (70, u128::MAX));
    assert_eq!(
        next_fee_growths_inside(200, &lower, -128, &upper, 128, 1000, 10),
        (u128::MAX - 69, 1)
    );
    assert_eq!(next_fee_growths_inside(128, &lower, -128, &upper, 128, 1000, 10).0, u128::MAX - 69);
    assert_eq!(next_fee_growths_inside(-128, &lower, -128, &upper, 128, 1000, 10).0, 870);
    let unused = Tick::new();
    assert_eq!(next_fee_growths_inside(0, &unused, -128, &unused, 128, 1000, 10), (0, 0));
    assert_eq!(next_fee_growths_inside(0, &lower, -128, &unused, 128, 1000, 10), (900, 9));
}

#[test]
fn reward_growth_inside_a_range() {
    let lower = Tick { initialized: true, reward_growths_outside: [100, 100, 100], ..Tick::new() };
    let upper = Tick { initialized: true, reward_growths_outside: [30, 30, 30], ..Tick::new() };
    let set_up = WhirlpoolRewardInfo {
        initialized: true,
        emissions_per_second_x64: 0,
        growth_global_x64: 1000,
    };
    let infos = [set_up, WhirlpoolRewardInfo::new(), set_up];
    assert_eq!(next_reward_growths_inside(0, &lower, -128, &upper, 128, &infos), [870, 0, 870]);
}

#[test]
fn crossing_flips_the_growth_outside() {
    let tick = Tick {
        initialized: true,
        liquidity_net: -5,
        liquidity_gross: 9,
        fee_growth_outside_a: 100,
        fee_growth_outside_b: 3000,
        reward_growths_outside: [1, 2, 3],
    };
    let set_up = WhirlpoolRewardInfo {
        initialized: true,
        emissions_per_second_x64: 0,
        growth_global_x64: 10,
    };
    let infos = [set_up, WhirlpoolRewardInfo::new(), set_up];
    assert_eq!(
        next_tick_cross_update(&tick, 1000, 2000, &infos),
        TickUpdate {
            initialized: true,
            liquidity_net: -5,
            liquidity_gross: 9,
            fee_growth_outside_a: 900,
            fee_growth_outside_b: u128::MAX - 999,
            reward_growths_outside: [9, 2, 7],
        }
    );
}

#[test]
fn a_tick_takes_a_change_of_liquidity() {
    let infos = [WhirlpoolRewardInfo {
        initialized: true,
        emissions_per_second_x64: 0,
        growth_global_x64: 10,
    }; 3];
    let unused = Tick::new();
    assert_eq!(
        next_tick_modify_liquidity_update(&unused, 64, 0, 1000, 2000, &infos, 0, false),
        Ok(TickUpdate::from(&unused))
    );
    // A tick above the current one starts with no growth outside.
    assert_eq!(
        next_tick_modify_liquidity_update(&unused, 64, 0, 1000, 2000, &infos, 50, true),
        Ok(TickUpdate {
            initialized: true,
            liquidity_net: -50,
            liquidity_gross: 50,
            fee_growth_outside_a: 0,
            fee_growth_outside_b: 0,
            reward_growths_outside: [0, 0, 0],
        })
    );
    // A tick at or below the current one starts with all growth outside.
    let update =
        next_tick_modify_liquidity_update(&unused, 0, 0, 1000, 2000, &infos, 50, false).unwrap();
    assert_eq!(
        update,
        TickUpdate {
            initialized: true,
            liquidity_net: 50,
            liquidity_gross: 50,
            fee_growth_outside_a: 1000,
            fee_growth_outside_b: 2000,
            reward_growths_outside: [10, 10, 10],
        }
    );
    let mut used = unused;
    used.update(&update);
    used.fee_growth_outside_a = 1;
    let more =
        next_tick_modify_liquidity_update(&used, 0, 0, 1000, 2000, &infos, 25, true).unwrap();
    assert_eq!(more.liquidity_net, 25);
    assert_eq!(more.liquidity_gross, 75);
    assert_eq!(more.fee_growth_outside_a, 1);
    assert_eq!(more.reward_growths_outside, [10, 10, 10]);
    // A tick that loses all its liquidity is cleared.
    assert_eq!(
        next_tick_modify_liquidity_update(&used, 0, 0, 1000, 2000, &infos, -50, false),
        Ok(TickUpdate::from(&unused))
    );
    assert_eq!(
        next_tick_modify_liquidity_update(&used, 0, 0, 1000, 2000, &infos, -51, false),
        Err(ErrorCode::LiquidityUnderflow)
    );
    let full = Tick { liquidity_gross: u128::MAX, ..used };
    assert_eq!(
        next_tick_modify_liquidity_update(&full, 0, 0, 1000, 2000, &infos, 1, false),
        Err(ErrorCode::LiquidityOverflow)
    );
    let lowest = Tick { liquidity_net: i128::MIN, ..used };
    assert_eq!(
        next_tick_modify_liquidity_update(&lowest, 0, 0, 1000, 2000, &infos, 1, true),
        Err(ErrorCode::LiquidityNetError)
    );
}

#[test]
fn liquidity_takes_a_signed_change() {
    assert_eq!(add_liquidity_delta(5, 0), Ok(5));
    assert_eq!(add_liquidity_delta(5, 3), Ok(8));
    assert_eq!(add_liquidity_delta(5, -3), Ok(2));
    assert_eq!(add_liquidity_delta(5, -5), Ok(0));
    assert_eq!(add_liquidity_delta(5, -6), Err(ErrorCode::LiquidityUnderflow));
    assert_eq!(add_liquidity_delta(u128::MAX, 1), Err(ErrorCode::LiquidityOverflow));
    assert_eq!(add_liquidity_delta(1u128 << 127, i128::MIN), Ok(0));
    assert_eq!(add_liquidity_delta(5, i128::MIN), Err(ErrorCode::LiquidityUnderflow));
}

#[test]
fn pool_liquidity_changes_where_the_price_lies_in_the_range() {
    let mut pool = pool();
    pool.liquidity = 100;
    assert_eq!(next_whirlpool_liquidity(&pool, 128, -128, 5), Ok(105));
    assert_eq!(next_whirlpool_liquidity(&pool, 128, 0, 5), Ok(105));
    assert_eq!(next_whirlpool_liquidity(&pool, 0, -128, 5), Ok(100));
    assert_eq!(next_whirlpool_liquidity(&pool, 128, 64, 5), Ok(100));
    assert_eq!(next_whirlpool_liquidity(&pool, 128, -128, -101), Err(ErrorCode::LiquidityUnderflow));
}

#[test]
fn rewards_grow_with_time_per_unit_of_liquidity() {
    let mut pool = pool();
    pool.liquidity = 1_000_000_000;
    pool.reward_last_updated_timestamp = 100;
    pool.reward_infos[0] = WhirlpoolRewardInfo {
        initialized: true,
        emissions_per_second_x64: 5u128 << 64,
        growth_global_x64: 7,
    };
    pool.reward_infos[2] = WhirlpoolRewardInfo {
        initialized: false,
        emissions_per_second_x64: 5u128 << 64,
        growth_global_x64: 7,
    };
    let infos = next_whirlpool_reward_infos(&pool, 110).unwrap();
    assert_eq!(infos[0].growth_global_x64, 7 + 922337203685);
    assert_eq!(infos[0].emissions_per_second_x64, 5u128 << 64);
    assert_eq!(infos[1], pool.reward_infos[1]);
    assert_eq!(infos[2], pool.reward_infos[2]);
    assert_eq!(next_whirlpool_reward_infos(&pool, 100), Ok(pool.reward_infos));
    assert_eq!(next_whirlpool_reward_infos(&pool, 99), Err(ErrorCode::InvalidTimestamp));
    pool.liquidity = 0;
    assert_eq!(next_whirlpool_reward_infos(&pool, 110), Ok(pool.reward_infos));
    // A growth that exceeds 128 bits fails.
    pool.liquidity = 1;
    pool.reward_infos[0].emissions_per_second_x64 = u128::MAX;
    assert_eq!(next_whirlpool_reward_infos(&pool, 110), Err(ErrorCode::RewardGrowthOverflow));
    pool.reward_infos[0].emissions_per_second_x64 = (u128::MAX - 7) / 10;
    assert_eq!(
        next_whirlpool_reward_infos(&pool, 110).unwrap()[0].growth_global_x64,
        7 + (u128::MAX - 7) / 10 * 10
    );
    pool.reward_infos[0].growth_global_x64 = 15;
    assert_eq!(next_whirlpool_reward_infos(&pool, 110).unwrap()[0].growth_global_x64, u128::MAX);
    pool.reward_infos[0].growth_global_x64 = 16;
    assert_eq!(next_whirlpool_reward_infos(&pool, 110), Err(ErrorCode::RewardGrowthOverflow));
}

#[test]
fn settling_a_position_needs_liquidity_and_both_ticks() {
    let mut pool = pool();
    let (mut lower, mut upper) = arrays();
    let mut position = open_position(&pool, -128, 128).unwrap();
    assert_eq!(
        update_fees_and_rewards(&pool, &position, &lower, &upper, 0),
        Err(ErrorCode::LiquidityZero)
    );
    assert_eq!(
        calculate_modify_liquidity(&pool, &position, &lower, &upper, 0, 0),
        Err(ErrorCode::LiquidityZero)
    );
    let change = increase_liquidity(
        &pool, &position, &lower, &upper, 1_000_000_000, u64::MAX, u64::MAX, 0,
    )
    .unwrap();
    apply(&mut pool, &mut position, &mut lower, &mut upper, &change, 0);
    assert_eq!(
        update_fees_and_rewards(&pool, &position, &upper, &upper, 0),
        Err(ErrorCode::TickNotFound)
    );
    // Fees of 5 * 2^60 per unit of liquidity have been earned in token A since.
    pool.fee_growth_global_a += 5u128 << 60;
    let (update, infos) = update_fees_and_rewards(&pool, &position, &lower, &upper, 0).unwrap();
    assert_eq!(update.fee_owed_a, 312_500_000);
    assert_eq!(update.fee_owed_b, 0);
    assert_eq!(update.liquidity, 1_000_000_000);
    assert_eq!(update.fee_growth_checkpoint_a, 5u128 << 60);
    assert_eq!(infos, pool.reward_infos);
}

#[test]
fn collecting_sets_the_balances_to_zero() {
    let mut position = open_position(&pool(), -128, 128).unwrap();
    position.fee_owed_a = 11;
    position.fee_owed_b = 13;
    position.reward_infos[1].amount_owed = 17;
    position.reward_infos[1].growth_inside_checkpoint = 19;
    assert_eq!(close_position(&position), Err(ErrorCode::ClosePositionNotEmpty));
    assert_eq!(collect_fees(&mut position), (11, 13));
    assert_eq!((position.fee_owed_a, position.fee_owed_b), (0, 0));
    assert_eq!(collect_fees(&mut position), (0, 0));
    assert_eq!(close_position(&position), Err(ErrorCode::ClosePositionNotEmpty));
    assert_eq!(collect_reward(&mut position, 3), Err(ErrorCode::InvalidRewardIndex));
    assert_eq!(collect_reward(&mut position, 0), Ok(0));
    assert_eq!(collect_reward(&mut position, 1), Ok(17));
    assert_eq!(position.reward_infos[1].amount_owed, 0);
    assert_eq!(position.reward_infos[1].growth_inside_checkpoint, 19);
    assert_eq!(close_position(&position), Ok(()));
    position.liquidity = 1;
    assert_eq!(close_position(&position), Err(ErrorCode::ClosePositionNotEmpty));
}

#[test]
fn a_pool_is_set_up_within_its_limits() {
    assert_eq!(Whirlpool::initialize(0, 3000, 300, ONE, 0), Err(ErrorCode::InvalidTickSpacing));
    assert_eq!(Whirlpool::initialize(64, 10_001, 300, ONE, 0), Err(ErrorCode::FeeRateMaxExceeded));
    assert_eq!(
        Whirlpool::initialize(64, 10_000, 2_501, ONE, 0),
        Err(ErrorCode::ProtocolFeeRateMaxExceeded)
    );
    let mut pool = Whirlpool::initialize(64, 10_000, 2_500, ONE, 0).unwrap();
    assert_eq!(pool.update_fee_rate(10_001), Err(ErrorCode::FeeRateMaxExceeded));
    assert_eq!(pool.fee_rate, 10_000);
    assert_eq!(pool.update_fee_rate(5), Ok(()));
    assert_eq!(pool.fee_rate, 5);
    assert_eq!(pool.update_protocol_fee_rate(2_501), Err(ErrorCode::ProtocolFeeRateMaxExceeded));
    assert_eq!(pool.update_protocol_fee_rate(7), Ok(()));
    assert_eq!(pool.protocol_fee_rate, 7);
}

#[test]
fn a_pool_takes_over_what_a_swap_has_computed() {
    let mut pool = pool();
    pool.protocol_fee_owed_a = u64::MAX - 2;
    let infos = [WhirlpoolRewardInfo {
        initialized: true,
        emissions_per_second_x64: 1,
        growth_global_x64: 2,
    }; 3];
    let before = pool;
    assert_eq!(
        pool.update_after_swap(5, 6, 7, 8, infos, 3, true, 9),
        Err(ErrorCode::ProtocolFeeOverflow)
    );
    assert_eq!(pool, before);
    assert_eq!(pool.update_after_swap(5, 6, 7, 8, infos, 2, true, 9), Ok(()));
    assert_eq!(pool.liquidity, 5);
    assert_eq!(pool.tick_current_index, 6);
    assert_eq!(pool.sqrt_price, 7);
    assert_eq!(pool.fee_growth_global_a, 8);
    assert_eq!(pool.fee_growth_global_b, 2000);
    assert_eq!(pool.reward_infos, infos);
    assert_eq!(pool.protocol_fee_owed_a, u64::MAX);
    assert_eq!(pool.protocol_fee_owed_b, 0);
    assert_eq!(pool.reward_last_updated_timestamp, 9);
    assert_eq!(pool.update_after_swap(5, 6, 7, 10, infos, 4, false, 9), Ok(()));
    assert_eq!(pool.fee_growth_global_a, 8);
    assert_eq!(pool.fee_growth_global_b, 10);
    assert_eq!(pool.protocol_fee_owed_b, 4);
    assert_eq!(pool.reset_protocol_fees_owed(), (u64::MAX, 4));
    assert_eq!((pool.protocol_fee_owed_a, pool.protocol_fee_owed_b), (0, 0));
}
