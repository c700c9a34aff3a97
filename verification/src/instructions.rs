//! The operations of the engine, on records that the caller has loaded.
//!
//! Each operation computes what is to be written and what is to be moved; none of them
//! moves a token. An operation that fails has written nothing that is to be kept.

use crate::errors::ErrorCode;
use crate::manager::liquidity_manager::{
    calculate_fee_and_reward_growths, calculate_liquidity_token_deltas,
    calculate_modify_liquidity, liquidity_token_deltas, modified_liquidity_in,
    ModifyLiquidityUpdate,
};
use crate::manager::swap_manager::{
    fees_kept, swap_in_place, swap_outcome, swap_refusal, PostSwapUpdate,
};
use crate::math::liquidity_math::convert_to_liquidity_delta;
use crate::state::position::{valid_range, Position, PositionRewardInfo, PositionUpdate};
use crate::state::tick::TickArray;
use crate::state::whirlpool::{Whirlpool, WhirlpoolRewardInfo};
use crate::util::swap_tick_sequence::SwapTickSequence;
use vstd::prelude::*;

verus! {

/// A change of a position's liquidity: what it writes, and the amounts of the two tokens
/// that the owner pays in for an increase or is paid out for a decrease.
#[derive(Clone, Copy, Debug, PartialEq, Eq)]
pub struct LiquidityChange {
    /// What the change writes to the pool, the two ticks and the position.
    pub update: ModifyLiquidityUpdate,
    /// The amount of token A.
    pub delta_a: u64,
    /// The amount of token B.
    pub delta_b: u64,
}

/// Opens a position without liquidity between two ticks of the pool.
///
/// Fails with `InvalidTickIndex` where a tick lies outside the supported range or off
/// the pool's grid, or the lower tick is not the smaller one.
pub fn open_position(whirlpool: &Whirlpool, tick_lower_index: i32, tick_upper_index: i32) -> (r:
    Result<Position, ErrorCode>)
    ensures
        !valid_range(tick_lower_index, tick_upper_index, whirlpool.tick_spacing) ==> r == Err::<
            Position,
            ErrorCode,
        >(ErrorCode::InvalidTickIndex),
        valid_range(tick_lower_index, tick_upper_index, whirlpool.tick_spacing) ==> r is Ok,
        r matches Ok(position) ==> {
            &&& position.tick_lower_index == tick_lower_index
            &&& position.tick_upper_index == tick_upper_index
            &&& position.is_empty()
            &&& position.fee_growth_checkpoint_a == 0
            &&& position.fee_growth_checkpoint_b == 0
            &&& forall|i: int|
                0 <= i < 3 ==> (#[trigger] position.reward_infos@[i]).growth_inside_checkpoint == 0
        },
{
    Position::open_position(whirlpool, tick_lower_index, tick_upper_index)
}

/// What a change of a position's liquidity by `liquidity_amount` comes to, upward
/// where `increase` and downward otherwise.
///
/// A zero amount fails with `LiquidityZero`, and one above the largest signed 128-bit
/// number with `LiquidityTooHigh`. Then the change is computed, and the amounts of the
/// two tokens that back it at the pool's price. An increase fails with
/// `TokenMaxExceeded` where an amount exceeds its limit, a decrease with
/// `TokenMinSubceeded` where an amount falls below its limit.
pub open spec fn liquidity_change(
    whirlpool: Whirlpool,
    position: Position,
    tick_array_lower: TickArray,
    tick_array_upper: TickArray,
    liquidity_amount: u128,
    limit_a: u64,
    limit_b: u64,
    timestamp: u64,
    increase: bool,
) -> Result<LiquidityChange, ErrorCode> {
    let liquidity_delta = if increase {
        liquidity_amount as i128
    } else {
        (-liquidity_amount) as i128
    };
    if liquidity_amount == 0 {
        Err(ErrorCode::LiquidityZero)
    } else if liquidity_amount > i128::MAX {
        Err(ErrorCode::LiquidityTooHigh)
    } else {
        match modified_liquidity_in(
            whirlpool,
            position,
            tick_array_lower,
            tick_array_upper,
            liquidity_delta,
            timestamp,
        ) {
            Err(e) => Err(e),
            Ok(update) => match liquidity_token_deltas(
                whirlpool.tick_current_index,
                whirlpool.sqrt_price,
                position,
                liquidity_delta,
            ) {
                Err(e) => Err(e),
                Ok((delta_a, delta_b)) => if increase && (delta_a > limit_a || delta_b > limit_b) {
                    Err(ErrorCode::TokenMaxExceeded)
                } else if !increase && (delta_a < limit_a || delta_b < limit_b) {
                    Err(ErrorCode::TokenMinSubceeded)
                } else {
                    Ok(LiquidityChange { update, delta_a, delta_b })
                },
            },
        }
    }
}

/// Adds `liquidity_amount` to a position, after its fees and rewards have been settled.
///
/// Returns what is to be written, and the amounts that the owner pays in, which are
/// rounded up. The two tick arrays hold the ticks at the ends of the position's range.
pub fn increase_liquidity(
    whirlpool: &Whirlpool,
    position: &Position,
    tick_array_lower: &TickArray,
    tick_array_upper: &TickArray,
    liquidity_amount: u128,
    token_max_a: u64,
    token_max_b: u64,
    timestamp: u64,
) -> (r: Result<LiquidityChange, ErrorCode>)
    ensures
        r == liquidity_change(
            *whirlpool,
            *position,
            *tick_array_lower,
            *tick_array_upper,
            liquidity_amount,
            token_max_a,
            token_max_b,
            timestamp,
            true,
        ),
        liquidity_amount == 0 ==> r == Err::<LiquidityChange, ErrorCode>(ErrorCode::LiquidityZero),
{
    if liquidity_amount == 0 {
        return Err(ErrorCode::LiquidityZero);
    }
    let liquidity_delta: i128 = convert_to_liquidity_delta(liquidity_amount, true)?;
    let update = calculate_modify_liquidity(
        whirlpool,
        position,
        tick_array_lower,
        tick_array_upper,
        liquidity_delta,
        timestamp,
    )?;
    let (delta_a, delta_b) = calculate_liquidity_token_deltas(
        whirlpool.tick_current_index,
        whirlpool.sqrt_price,
        position,
        liquidity_delta,
    )?;
    if delta_a > token_max_a || delta_b > token_max_b {
        return Err(ErrorCode::TokenMaxExceeded);
    }
    Ok(LiquidityChange { update, delta_a, delta_b })
}

/// Takes `liquidity_amount` from a position, after its fees and rewards have been
/// settled.
///
/// Returns what is to be written, and the amounts that the owner is paid out, which
/// are rounded down. The two tick arrays hold the ticks at the ends of the position's
/// range.
pub fn decrease_liquidity(
    whirlpool: &Whirlpool,
    position: &Position,
    tick_array_lower: &TickArray,
    tick_array_upper: &TickArray,
    liquidity_amount: u128,
    token_min_a: u64,
    token_min_b: u64,
    timestamp: u64,
) -> (r: Result<LiquidityChange, ErrorCode>)
    ensures
        r == liquidity_change(
            *whirlpool,
            *position,
            *tick_array_lower,
            *tick_array_upper,
            liquidity_amount,
            token_min_a,
            token_min_b,
            timestamp,
            false,
        ),
{
    if liquidity_amount == 0 {
        return Err(ErrorCode::LiquidityZero);
    }
    let liquidity_delta: i128 = convert_to_liquidity_delta(liquidity_amount, false)?;
    let update = calculate_modify_liquidity(
        whirlpool,
        position,
        tick_array_lower,
        tick_array_upper,
        liquidity_delta,
        timestamp,
    )?;
    let (delta_a, delta_b) = calculate_liquidity_token_deltas(
        whirlpool.tick_current_index,
        whirlpool.sqrt_price,
        position,
        liquidity_delta,
    )?;
    if delta_a < token_min_a || delta_b < token_min_b {
        return Err(ErrorCode::TokenMinSubceeded);
    }
    Ok(LiquidityChange { update, delta_a, delta_b })
}

/// Hands out the fees of a position: returns what it is owed in token A and in token B
/// and sets both balances to zero.
pub fn collect_fees(position: &mut Position) -> (r: (u64, u64))
    ensures
        r == (old(position).fee_owed_a, old(position).fee_owed_b),
        *final(position) == (Position { fee_owed_a: 0, fee_owed_b: 0, ..*old(position) }),
{
    position.reset_fees_owed()
}

/// Hands out one reward of a position: returns what it is owed of the reward
/// `reward_index` and sets that balance to zero.
///
/// Fails with `InvalidRewardIndex` where the pool has no such reward, and then
/// changes nothing.
pub fn collect_reward(position: &mut Position, reward_index: u8) -> (r: Result<u64, ErrorCode>)
    ensures
        reward_index >= 3 ==> r == Err::<u64, ErrorCode>(ErrorCode::InvalidRewardIndex)
            && *final(position) == *old(position),
        reward_index < 3 ==> r == Ok::<u64, ErrorCode>(
            old(position).reward_infos@[reward_index as int].amount_owed,
        ) && final(position).reward_infos@ == old(position).reward_infos@.update(
            reward_index as int,
            PositionRewardInfo {
                growth_inside_checkpoint: old(
                    position,
                ).reward_infos@[reward_index as int].growth_inside_checkpoint,
                amount_owed: 0,
            },
        ) && *final(position) == (Position {
            reward_infos: final(position).reward_infos,
            ..*old(position)
        }),
{
    if reward_index >= 3 {
        return Err(ErrorCode::InvalidRewardIndex);
    }
    let owed: u64 = position.reward_infos[reward_index as usize].amount_owed;
    position.update_reward_owed(reward_index as usize, 0);
    Ok(owed)
}

/// What a swap with a threshold returns, and the tick arrays after it: what the swap
/// returns, unless the amount of the other token misses the threshold. A swap of a fixed
/// input then fails with `TokenMinSubceeded` where it gives out less than the
/// threshold, and a swap of a fixed output with `TokenMaxExceeded` where it takes in
/// more.
pub open spec fn checked_swap_outcome(
    whirlpool: Whirlpool,
    arrays: Seq<TickArray>,
    amount: u64,
    other_amount_threshold: u64,
    sqrt_price_limit: u128,
    amount_specified_is_input: bool,
    a_to_b: bool,
    timestamp: u64,
) -> Result<(PostSwapUpdate, Seq<TickArray>), ErrorCode> {
    match swap_outcome(
        whirlpool,
        arrays,
        amount,
        sqrt_price_limit,
        amount_specified_is_input,
        a_to_b,
        timestamp,
    ) {
        Err(e) => Err(e),
        Ok((update, next_arrays)) => {
            let other = if a_to_b == amount_specified_is_input {
                update.amount_b
            } else {
                update.amount_a
            };
            if amount_specified_is_input && other < other_amount_threshold {
                Err(ErrorCode::TokenMinSubceeded)
            } else if !amount_specified_is_input && other > other_amount_threshold {
                Err(ErrorCode::TokenMaxExceeded)
            } else {
                Ok((update, next_arrays))
            }
        },
    }
}

/// Trades `amount` against the pool and holds the result against the caller's
/// threshold for the other token.
///
/// Returns what the swap writes to the pool and the amounts that it moves; the ticks
/// that it has crossed are written to `swap_tick_sequence`. A swap that fails writes
/// nothing: the tick arrays are then as they were.
///
/// On success the fee growth of the token that the swap takes in is not less than
/// before, and the protocol's fees of the swap can be added to what the protocol was
/// owed without leaving 64 bits.
pub fn swap(
    whirlpool: &Whirlpool,
    swap_tick_sequence: &mut SwapTickSequence,
    amount: u64,
    other_amount_threshold: u64,
    sqrt_price_limit: u128,
    amount_specified_is_input: bool,
    a_to_b: bool,
    timestamp: u64,
) -> (r: Result<PostSwapUpdate, ErrorCode>)
    ensures
        match checked_swap_outcome(
            *whirlpool,
            old(swap_tick_sequence).arrays@,
            amount,
            other_amount_threshold,
            sqrt_price_limit,
            amount_specified_is_input,
            a_to_b,
            timestamp,
        ) {
            Err(e) => r == Err::<PostSwapUpdate, ErrorCode>(e) && final(swap_tick_sequence).arrays@
                == old(swap_tick_sequence).arrays@,
            Ok((update, arrays)) => r == Ok::<PostSwapUpdate, ErrorCode>(update) && final(swap_tick_sequence).arrays@
                == arrays,
        },
        swap_refusal(*whirlpool, amount, sqrt_price_limit, a_to_b) is Some ==> final(swap_tick_sequence).arrays@
            == old(swap_tick_sequence).arrays@,
        amount == 0 ==> r == Err::<PostSwapUpdate, ErrorCode>(ErrorCode::ZeroTradableAmount),
        r matches Ok(update) ==> fees_kept(*whirlpool, update, a_to_b),
{
    let mut working = swap_tick_sequence.duplicate();
    let update = swap_in_place(
        whirlpool,
        &mut working,
        amount,
        sqrt_price_limit,
        amount_specified_is_input,
        a_to_b,
        timestamp,
    )?;
    let other: u64 = if a_to_b == amount_specified_is_input {
        update.amount_b
    } else {
        update.amount_a
    };
    if amount_specified_is_input {
        if other < other_amount_threshold {
            return Err(ErrorCode::TokenMinSubceeded);
        }
    } else {
        if other > other_amount_threshold {
            return Err(ErrorCode::TokenMaxExceeded);
        }
    }
    swap_tick_sequence.arrays = working.arrays;
    Ok(update)
}

/// Closes a position. Fails with `ClosePositionNotEmpty` unless the position holds no
/// liquidity and nothing that it could collect.
pub fn close_position(position: &Position) -> (r: Result<(), ErrorCode>)
    ensures
        position.is_empty() ==> r is Ok,
        !position.is_empty() ==> r == Err::<(), ErrorCode>(ErrorCode::ClosePositionNotEmpty),
{
    if !position.is_position_empty() {
        return Err(ErrorCode::ClosePositionNotEmpty);
    }
    Ok(())
}

/// Settles the fees and rewards of a position at `timestamp`.
///
/// Returns what is to be written to the position, and the rewards of the pool at that
/// time. Fails with `LiquidityZero` for a position without liquidity, which has
/// nothing to settle, and with `TickNotFound` where a tick array does not hold the tick
/// at its end of the position's range.
pub fn update_fees_and_rewards(
    whirlpool: &Whirlpool,
    position: &Position,
    tick_array_lower: &TickArray,
    tick_array_upper: &TickArray,
    timestamp: u64,
) -> (r: Result<(PositionUpdate, [WhirlpoolRewardInfo; 3]), ErrorCode>)
    ensures
        position.liquidity == 0 ==> r == Err::<(PositionUpdate, [WhirlpoolRewardInfo; 3]), ErrorCode>(
            ErrorCode::LiquidityZero,
        ),
        position.liquidity != 0 ==> r == (match modified_liquidity_in(
            *whirlpool,
            *position,
            *tick_array_lower,
            *tick_array_upper,
            0,
            timestamp,
        ) {
            Ok(update) => Ok((update.position_update, update.reward_infos)),
            Err(e) => Err(e),
        }),
{
    calculate_fee_and_reward_growths(
        whirlpool,
        position,
        tick_array_lower,
        tick_array_upper,
        timestamp,
    )
}

} // verus!
