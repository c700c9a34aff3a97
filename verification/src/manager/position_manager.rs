use crate::errors::ErrorCode;
use crate::math::bit_math::checked_mul_shift_right;
use crate::math::u256_math::pow2_64;
use crate::math::liquidity_math::{add_liquidity_delta, liquidity_plus_delta};
use crate::state::position::{Position, PositionRewardInfo, PositionUpdate};
use vstd::prelude::*;

verus! {

/// What a position has earned since its checkpoint: its liquidity times the growth
/// since then, which is taken modulo `2^128`, shifted right by 64 bits.
pub open spec fn earned_since(liquidity: u128, growth_inside: u128, checkpoint: u128) -> int {
    liquidity * growth_inside.wrapping_sub(checkpoint) / pow2_64()
}

/// What a position may collect after it has been settled: what it could collect
/// before and what it has earned since. Fails with `AmountOwedOverflow` where that
/// exceeds 64 bits.
pub open spec fn owed_after(owed: u64, liquidity: u128, growth_inside: u128, checkpoint: u128) -> Result<
    u64,
    ErrorCode,
> {
    if owed + earned_since(liquidity, growth_inside, checkpoint) > u64::MAX {
        Err(ErrorCode::AmountOwedOverflow)
    } else {
        Ok((owed + earned_since(liquidity, growth_inside, checkpoint)) as u64)
    }
}

/// A position's share of one reward after it has been settled.
pub open spec fn settled_reward(
    info: PositionRewardInfo,
    liquidity: u128,
    growth_inside: u128,
) -> Result<PositionRewardInfo, ErrorCode> {
    match owed_after(info.amount_owed, liquidity, growth_inside, info.growth_inside_checkpoint) {
        Err(e) => Err(e),
        Ok(amount_owed) => Ok(
            PositionRewardInfo { growth_inside_checkpoint: growth_inside, amount_owed },
        ),
    }
}

/// The three rewards of a position after they have been settled; the first that fails
/// gives the error.
pub open spec fn settled_rewards(
    position: Position,
    reward_growths_inside: [u128; 3],
) -> Result<[PositionRewardInfo; 3], ErrorCode> {
    match settled_reward(position.reward_infos@[0], position.liquidity, reward_growths_inside@[0]) {
        Err(e) => Err(e),
        Ok(first) => match settled_reward(
            position.reward_infos@[1],
            position.liquidity,
            reward_growths_inside@[1],
        ) {
            Err(e) => Err(e),
            Ok(second) => match settled_reward(
                position.reward_infos@[2],
                position.liquidity,
                reward_growths_inside@[2],
            ) {
                Err(e) => Err(e),
                Ok(third) => Ok([first, second, third]),
            },
        },
    }
}

/// What `next_position_modify_liquidity_update` returns.
///
/// Fees and rewards are settled with the liquidity that the position had before the
/// change: each balance grows by `earned_since`, and each checkpoint becomes the growth
/// inside the range. A position without liquidity therefore earns nothing. Then the
/// liquidity takes the change. The first of these that fails gives the error: the fees
/// in token A, those in token B, the rewards in their order, the liquidity.
pub open spec fn settled_position(
    position: Position,
    liquidity_delta: i128,
    fee_growth_inside_a: u128,
    fee_growth_inside_b: u128,
    reward_growths_inside: [u128; 3],
) -> Result<PositionUpdate, ErrorCode> {
    match owed_after(
        position.fee_owed_a,
        position.liquidity,
        fee_growth_inside_a,
        position.fee_growth_checkpoint_a,
    ) {
        Err(e) => Err(e),
        Ok(fee_owed_a) => match owed_after(
            position.fee_owed_b,
            position.liquidity,
            fee_growth_inside_b,
            position.fee_growth_checkpoint_b,
        ) {
            Err(e) => Err(e),
            Ok(fee_owed_b) => match settled_rewards(position, reward_growths_inside) {
                Err(e) => Err(e),
                Ok(reward_infos) => match liquidity_plus_delta(
                    position.liquidity,
                    liquidity_delta,
                ) {
                    Err(e) => Err(e),
                    Ok(liquidity) => Ok(
                        PositionUpdate {
                            liquidity,
                            fee_growth_checkpoint_a: fee_growth_inside_a,
                            fee_owed_a,
                            fee_growth_checkpoint_b: fee_growth_inside_b,
                            fee_owed_b,
                            reward_infos,
                        },
                    ),
                },
            },
        },
    }
}

fn get_owed_after(owed: u64, liquidity: u128, growth_inside: u128, checkpoint: u128) -> (r: Result<
    u64,
    ErrorCode,
>)
    ensures
        r == owed_after(owed, liquidity, growth_inside, checkpoint),
        r matches Ok(after) ==> after >= owed,
{
    let growth_delta: u128 = growth_inside.wrapping_sub(checkpoint);
    proof {
        assert(0 <= liquidity * growth_delta) by (nonlinear_arith)
            requires
                liquidity >= 0,
                growth_delta >= 0,
        ;
    }
    let earned: u64 = match checked_mul_shift_right(liquidity, growth_delta) {
        Ok(v) => v,
        Err(_) => { return Err(ErrorCode::AmountOwedOverflow); },
    };
    match owed.checked_add(earned) {
        Some(after) => Ok(after),
        None => Err(ErrorCode::AmountOwedOverflow),
    }
}

fn get_settled_reward(info: &PositionRewardInfo, liquidity: u128, growth_inside: u128) -> (r:
    Result<PositionRewardInfo, ErrorCode>)
    ensures
        r == settled_reward(*info, liquidity, growth_inside),
        r matches Ok(after) ==> after.amount_owed >= info.amount_owed,
{
    let amount_owed: u64 = get_owed_after(
        info.amount_owed,
        liquidity,
        growth_inside,
        info.growth_inside_checkpoint,
    )?;
    Ok(PositionRewardInfo { growth_inside_checkpoint: growth_inside, amount_owed })
}

/// Settles a position and then changes its liquidity by `liquidity_delta`. No balance
/// of the position is less than before.
///
/// Fails with `AmountOwedOverflow` where a balance would exceed 64 bits, and with
/// `LiquidityOverflow` or `LiquidityUnderflow` where the new liquidity leaves the 128
/// bits.
pub fn next_position_modify_liquidity_update(
    position: &Position,
    liquidity_delta: i128,
    fee_growth_inside_a: u128,
    fee_growth_inside_b: u128,
    reward_growths_inside: &[u128; 3],
) -> (r: Result<PositionUpdate, ErrorCode>)
    ensures
        r == settled_position(
            *position,
            liquidity_delta,
            fee_growth_inside_a,
            fee_growth_inside_b,
            *reward_growths_inside,
        ),
        r matches Ok(update) ==> update.fee_owed_a >= position.fee_owed_a && update.fee_owed_b
            >= position.fee_owed_b && forall|i: int|
            0 <= i < 3 ==> (#[trigger] update.reward_infos@[i]).amount_owed
                >= position.reward_infos@[i].amount_owed,
{
    let fee_owed_a: u64 = get_owed_after(
        position.fee_owed_a,
        position.liquidity,
        fee_growth_inside_a,
        position.fee_growth_checkpoint_a,
    )?;
    let fee_owed_b: u64 = get_owed_after(
        position.fee_owed_b,
        position.liquidity,
        fee_growth_inside_b,
        position.fee_growth_checkpoint_b,
    )?;
    let first = get_settled_reward(
        &position.reward_infos[0],
        position.liquidity,
        reward_growths_inside[0],
    )?;
    let second = get_settled_reward(
        &position.reward_infos[1],
        position.liquidity,
        reward_growths_inside[1],
    )?;
    let third = get_settled_reward(
        &position.reward_infos[2],
        position.liquidity,
        reward_growths_inside[2],
    )?;
    let reward_infos: [PositionRewardInfo; 3] = [first, second, third];
    assert(reward_infos@ =~= settled_rewards(*position, *reward_growths_inside)->Ok_0@);
    let liquidity: u128 = add_liquidity_delta(position.liquidity, liquidity_delta)?;
    Ok(
        PositionUpdate {
            liquidity,
            fee_growth_checkpoint_a: fee_growth_inside_a,
            fee_owed_a,
            fee_growth_checkpoint_b: fee_growth_inside_b,
            fee_owed_b,
            reward_infos,
        },
    )
}

} // verus!
