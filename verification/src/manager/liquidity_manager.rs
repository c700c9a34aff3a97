use crate::errors::ErrorCode;
use crate::manager::position_manager::{next_position_modify_liquidity_update, settled_position};
use crate::manager::tick_manager::{
    fee_growths_inside, modified_tick, next_fee_growths_inside, next_reward_growths_inside,
    next_tick_modify_liquidity_update, reward_growths_inside,
};
use crate::manager::whirlpool_manager::{
    next_liquidity, next_reward_infos, next_whirlpool_liquidity, next_whirlpool_reward_infos,
};
use crate::math::tick_math::{sqrt_price_at_tick, sqrt_price_from_tick_index};
use crate::math::token_math::{
    amount_delta_a, amount_delta_b, get_amount_delta_a, get_amount_delta_b,
};
use crate::state::position::{Position, PositionUpdate};
use crate::state::tick::{tick_in, Tick, TickArray, TickUpdate};
use crate::state::whirlpool::{Whirlpool, WhirlpoolRewardInfo};
use vstd::prelude::*;

verus! {

/// What a change of a position's liquidity writes to the pool, to the two ticks at the
/// ends of the position's range, and to the position.
#[derive(Clone, Copy, Debug, PartialEq, Eq)]
pub struct ModifyLiquidityUpdate {
    /// The active liquidity of the pool.
    pub whirlpool_liquidity: u128,
    /// The contents of the tick at the lower end.
    pub tick_lower_update: TickUpdate,
    /// The contents of the tick at the upper end.
    pub tick_upper_update: TickUpdate,
    /// The rewards of the pool.
    pub reward_infos: [WhirlpoolRewardInfo; 3],
    /// The contents of the position.
    pub position_update: PositionUpdate,
}

/// What a change of the liquidity of `position` by `liquidity_delta` writes, given the
/// two ticks at the ends of its range.
///
/// The rewards of the pool are brought up to `timestamp` first. The two ticks and the
/// active liquidity of the pool take the change, and the position is settled at the
/// growth inside its range, as that stood before the change, and then takes the change.
/// The first step that fails gives the error.
///
/// A zero change to a position without liquidity fails with `LiquidityZero`.
pub open spec fn modified_liquidity(
    whirlpool: Whirlpool,
    position: Position,
    tick_lower: Tick,
    tick_upper: Tick,
    liquidity_delta: i128,
    timestamp: u64,
) -> Result<ModifyLiquidityUpdate, ErrorCode> {
    if liquidity_delta == 0 && position.liquidity == 0 {
        Err(ErrorCode::LiquidityZero)
    } else {
        match next_reward_infos(whirlpool, timestamp) {
            Err(e) => Err(e),
            Ok(reward_infos) => match next_liquidity(
                whirlpool,
                position.tick_upper_index,
                position.tick_lower_index,
                liquidity_delta,
            ) {
                Err(e) => Err(e),
                Ok(whirlpool_liquidity) => match modified_tick(
                    tick_lower,
                    position.tick_lower_index,
                    whirlpool.tick_current_index,
                    whirlpool.fee_growth_global_a,
                    whirlpool.fee_growth_global_b,
                    reward_infos,
                    liquidity_delta,
                    false,
                ) {
                    Err(e) => Err(e),
                    Ok(tick_lower_update) => match modified_tick(
                        tick_upper,
                        position.tick_upper_index,
                        whirlpool.tick_current_index,
                        whirlpool.fee_growth_global_a,
                        whirlpool.fee_growth_global_b,
                        reward_infos,
                        liquidity_delta,
                        true,
                    ) {
                        Err(e) => Err(e),
                        Ok(tick_upper_update) => {
                            let fees = fee_growths_inside(
                                whirlpool.tick_current_index,
                                tick_lower,
                                position.tick_lower_index,
                                tick_upper,
                                position.tick_upper_index,
                                whirlpool.fee_growth_global_a,
                                whirlpool.fee_growth_global_b,
                            );
                            let rewards = reward_growths_inside(
                                whirlpool.tick_current_index,
                                tick_lower,
                                position.tick_lower_index,
                                tick_upper,
                                position.tick_upper_index,
                                reward_infos,
                            );
                            match settled_position(
                                position,
                                liquidity_delta,
                                fees.0,
                                fees.1,
                                rewards,
                            ) {
                                Err(e) => Err(e),
                                Ok(position_update) => Ok(
                                    ModifyLiquidityUpdate {
                                        whirlpool_liquidity,
                                        tick_lower_update,
                                        tick_upper_update,
                                        reward_infos,
                                        position_update,
                                    },
                                ),
                            }
                        },
                    },
                },
            },
        }
    }
}

/// What `calculate_modify_liquidity` returns: the two ticks are read from their arrays,
/// the lower one first, and then `modified_liquidity` says the rest.
pub open spec fn modified_liquidity_in(
    whirlpool: Whirlpool,
    position: Position,
    tick_array_lower: TickArray,
    tick_array_upper: TickArray,
    liquidity_delta: i128,
    timestamp: u64,
) -> Result<ModifyLiquidityUpdate, ErrorCode> {
    match tick_in(tick_array_lower, position.tick_lower_index, whirlpool.tick_spacing) {
        Err(e) => Err(e),
        Ok(tick_lower) => match tick_in(
            tick_array_upper,
            position.tick_upper_index,
            whirlpool.tick_spacing,
        ) {
            Err(e) => Err(e),
            Ok(tick_upper) => modified_liquidity(
                whirlpool,
                position,
                tick_lower,
                tick_upper,
                liquidity_delta,
                timestamp,
            ),
        },
    }
}

/// What a change of the liquidity of `position` by `liquidity_delta` writes. The two
/// tick arrays hold the ticks at the ends of the position's range; they may be one and
/// the same.
pub fn calculate_modify_liquidity(
    whirlpool: &Whirlpool,
    position: &Position,
    tick_array_lower: &TickArray,
    tick_array_upper: &TickArray,
    liquidity_delta: i128,
    timestamp: u64,
) -> (r: Result<ModifyLiquidityUpdate, ErrorCode>)
    ensures
        r == modified_liquidity_in(
            *whirlpool,
            *position,
            *tick_array_lower,
            *tick_array_upper,
            liquidity_delta,
            timestamp,
        ),
{
    let tick_lower: &Tick = tick_array_lower.get_tick(
        position.tick_lower_index,
        whirlpool.tick_spacing,
    )?;
    let tick_upper: &Tick = tick_array_upper.get_tick(
        position.tick_upper_index,
        whirlpool.tick_spacing,
    )?;
    calculate_modify_liquidity_at(
        whirlpool,
        position,
        tick_lower,
        tick_upper,
        liquidity_delta,
        timestamp,
    )
}

/// What settling `position` at `timestamp` writes to it, and the rewards of the pool at
/// that time. Fails with `LiquidityZero` for a position without liquidity, and else as
/// `calculate_modify_liquidity` does for a zero change.
pub fn calculate_fee_and_reward_growths(
    whirlpool: &Whirlpool,
    position: &Position,
    tick_array_lower: &TickArray,
    tick_array_upper: &TickArray,
    timestamp: u64,
) -> (r: Result<(PositionUpdate, [WhirlpoolRewardInfo; 3]), ErrorCode>)
    ensures
        position.liquidity == 0 ==> r == Err::<(PositionUpdate, [WhirlpoolRewardInfo; 3]), ErrorCode>(
            ErrorCode::LiquidityZero,
        ),
        position.liquidity != 0 ==> r == (match modified_liquidity_in(
            *whirlpool,
            *position,
            *tick_array_lower,
            *tick_array_upper,
            0,
            timestamp,
        ) {
            Ok(update) => Ok((update.position_update, update.reward_infos)),
            Err(e) => Err(e),
        }),
{
    if position.liquidity == 0 {
        return Err(ErrorCode::LiquidityZero);
    }
    let update = calculate_modify_liquidity(
        whirlpool,
        position,
        tick_array_lower,
        tick_array_upper,
        0,
        timestamp,
    )?;
    Ok((update.position_update, update.reward_infos))
}

fn calculate_modify_liquidity_at(
    whirlpool: &Whirlpool,
    position: &Position,
    tick_lower: &Tick,
    tick_upper: &Tick,
    liquidity_delta: i128,
    timestamp: u64,
) -> (r: Result<ModifyLiquidityUpdate, ErrorCode>)
    ensures
        r == modified_liquidity(
            *whirlpool,
            *position,
            *tick_lower,
            *tick_upper,
            liquidity_delta,
            timestamp,
        ),
{
    // Settling alone is refused for a position without liquidity: nothing has grown.
    if liquidity_delta == 0 && position.liquidity == 0 {
        return Err(ErrorCode::LiquidityZero);
    }
    let next_reward_infos = next_whirlpool_reward_infos(whirlpool, timestamp)?;

    let next_global_liquidity: u128 = next_whirlpool_liquidity(
        whirlpool,
        position.tick_upper_index,
        position.tick_lower_index,
        liquidity_delta,
    )?;

    let tick_lower_update = next_tick_modify_liquidity_update(
        tick_lower,
        position.tick_lower_index,
        whirlpool.tick_current_index,
        whirlpool.fee_growth_global_a,
        whirlpool.fee_growth_global_b,
        &next_reward_infos,
        liquidity_delta,
        false,
    )?;
    let tick_upper_update = next_tick_modify_liquidity_update(
        tick_upper,
        position.tick_upper_index,
        whirlpool.tick_current_index,
        whirlpool.fee_growth_global_a,
        whirlpool.fee_growth_global_b,
        &next_reward_infos,
        liquidity_delta,
        true,
    )?;

    let (fee_growth_inside_a, fee_growth_inside_b) = next_fee_growths_inside(
        whirlpool.tick_current_index,
        tick_lower,
        position.tick_lower_index,
        tick_upper,
        position.tick_upper_index,
        whirlpool.fee_growth_global_a,
        whirlpool.fee_growth_global_b,
    );

    let reward_growths_inside = next_reward_growths_inside(
        whirlpool.tick_current_index,
        tick_lower,
        position.tick_lower_index,
        tick_upper,
        position.tick_upper_index,
        &next_reward_infos,
    );

    let position_update = next_position_modify_liquidity_update(
        position,
        liquidity_delta,
        fee_growth_inside_a,
        fee_growth_inside_b,
        &reward_growths_inside,
    )?;

    Ok(
        ModifyLiquidityUpdate {
            whirlpool_liquidity: next_global_liquidity,
            reward_infos: next_reward_infos,
            position_update,
            tick_lower_update,
            tick_upper_update,
        },
    )
}

/// The magnitude of a change of liquidity.
pub open spec fn magnitude(liquidity_delta: i128) -> u128 {
    if liquidity_delta >= 0 {
        liquidity_delta as u128
    } else {
        (-liquidity_delta) as u128
    }
}

/// What `calculate_liquidity_token_deltas` returns.
///
/// Below the position's range the liquidity is backed by token A alone, above it by
/// token B alone, and within it by token A from the current price up to the upper end
/// and by token B from the lower end up to the current price. The amounts are rounded
/// up for a deposit and down for a withdrawal.
pub open spec fn liquidity_token_deltas(
    current_tick_index: i32,
    sqrt_price: u128,
    position: Position,
    liquidity_delta: i128,
) -> Result<(u64, u64), ErrorCode> {
    let liquidity = magnitude(liquidity_delta);
    let round_up = liquidity_delta > 0;
    let lower_price = sqrt_price_at_tick(position.tick_lower_index as int) as u128;
    let upper_price = sqrt_price_at_tick(position.tick_upper_index as int) as u128;
    if liquidity_delta == 0 {
        Err(ErrorCode::LiquidityZero)
    } else if current_tick_index < position.tick_lower_index {
        match amount_delta_a(lower_price, upper_price, liquidity, round_up) {
            Err(e) => Err(e),
            Ok(delta_a) => Ok((delta_a, 0u64)),
        }
    } else if current_tick_index < position.tick_upper_index {
        match amount_delta_a(sqrt_price, upper_price, liquidity, round_up) {
            Err(e) => Err(e),
            Ok(delta_a) => match amount_delta_b(lower_price, sqrt_price, liquidity, round_up) {
                Err(e) => Err(e),
                Ok(delta_b) => Ok((delta_a, delta_b)),
            },
        }
    } else {
        match amount_delta_b(lower_price, upper_price, liquidity, round_up) {
            Err(e) => Err(e),
            Ok(delta_b) => Ok((0u64, delta_b)),
        }
    }
}

/// The amounts of token A and of token B that back a change of a position's liquidity
/// at the pool's current tick and price.
///
/// Fails with `LiquidityZero` on a zero change, and else as the amounts do.
pub fn calculate_liquidity_token_deltas(
    current_tick_index: i32,
    sqrt_price: u128,
    position: &Position,
    liquidity_delta: i128,
) -> (r: Result<(u64, u64), ErrorCode>)
    ensures
        r == liquidity_token_deltas(current_tick_index, sqrt_price, *position, liquidity_delta),
{
    if liquidity_delta == 0 {
        return Err(ErrorCode::LiquidityZero);
    }
    let mut delta_a: u64 = 0;
    let mut delta_b: u64 = 0;

    let liquidity: u128 = if liquidity_delta == i128::MIN {
        0x8000_0000_0000_0000_0000_0000_0000_0000
    } else if liquidity_delta < 0 {
        (-liquidity_delta) as u128
    } else {
        liquidity_delta as u128
    };
    let round_up = liquidity_delta > 0;

    let lower_price: u128 = sqrt_price_from_tick_index(position.tick_lower_index);
    let upper_price: u128 = sqrt_price_from_tick_index(position.tick_upper_index);

    if current_tick_index < position.tick_lower_index {
        delta_a = get_amount_delta_a(lower_price, upper_price, liquidity, round_up)?;
    } else if current_tick_index < position.tick_upper_index {
        delta_a = get_amount_delta_a(sqrt_price, upper_price, liquidity, round_up)?;
        delta_b = get_amount_delta_b(lower_price, sqrt_price, liquidity, round_up)?;
    } else {
        delta_b = get_amount_delta_b(lower_price, upper_price, liquidity, round_up)?;
    }
    Ok((delta_a, delta_b))
}

} // verus!
