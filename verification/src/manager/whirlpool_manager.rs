use crate::errors::ErrorCode;
use crate::math::bit_math::{checked_mul_div, div_round, lemma_div_round_bounds};
use crate::math::liquidity_math::{add_liquidity_delta, liquidity_plus_delta};
use crate::state::whirlpool::{Whirlpool, WhirlpoolRewardInfo};
use vstd::prelude::*;

verus! {

/// What a reward has paid out per unit of liquidity after `time_delta` more seconds:
/// `emissions * time_delta / liquidity` more, rounded down. Fails with
/// `RewardGrowthOverflow` where that exceeds 128 bits.
pub open spec fn reward_growth_after(
    growth_global_x64: u128,
    emissions_per_second_x64: u128,
    time_delta: u64,
    liquidity: u128,
) -> Result<u128, ErrorCode> {
    let grown = growth_global_x64 + div_round(
        time_delta * emissions_per_second_x64,
        liquidity as int,
        false,
    );
    if grown > u128::MAX {
        Err(ErrorCode::RewardGrowthOverflow)
    } else {
        Ok(grown as u128)
    }
}

/// One reward of a pool with liquidity after `time_delta` more seconds: grown as
/// `reward_growth_after` says where it is set up, and as it is otherwise.
pub open spec fn reward_info_after(
    info: WhirlpoolRewardInfo,
    time_delta: u64,
    liquidity: u128,
) -> Result<WhirlpoolRewardInfo, ErrorCode> {
    if info.initialized {
        match reward_growth_after(
            info.growth_global_x64,
            info.emissions_per_second_x64,
            time_delta,
            liquidity,
        ) {
            Err(e) => Err(e),
            Ok(growth_global_x64) => Ok(WhirlpoolRewardInfo { growth_global_x64, ..info }),
        }
    } else {
        Ok(info)
    }
}

/// What `next_whirlpool_reward_infos` returns.
pub open spec fn next_reward_infos(whirlpool: Whirlpool, next_timestamp: u64) -> Result<
    [WhirlpoolRewardInfo; 3],
    ErrorCode,
> {
    let time_delta = (next_timestamp - whirlpool.reward_last_updated_timestamp) as u64;
    if next_timestamp < whirlpool.reward_last_updated_timestamp {
        Err(ErrorCode::InvalidTimestamp)
    } else if whirlpool.liquidity == 0 {
        Ok(whirlpool.reward_infos)
    } else {
        match reward_info_after(whirlpool.reward_infos@[0], time_delta, whirlpool.liquidity) {
            Err(e) => Err(e),
            Ok(first) => match reward_info_after(
                whirlpool.reward_infos@[1],
                time_delta,
                whirlpool.liquidity,
            ) {
                Err(e) => Err(e),
                Ok(second) => match reward_info_after(
                    whirlpool.reward_infos@[2],
                    time_delta,
                    whirlpool.liquidity,
                ) {
                    Err(e) => Err(e),
                    Ok(third) => Ok([first, second, third]),
                },
            },
        }
    }
}

fn get_reward_info_after(info: &WhirlpoolRewardInfo, time_delta: u64, liquidity: u128) -> (r:
    Result<WhirlpoolRewardInfo, ErrorCode>)
    requires
        liquidity != 0,
    ensures
        r == reward_info_after(*info, time_delta, liquidity),
        r matches Ok(after) ==> after.growth_global_x64 >= info.growth_global_x64,
{
    if !info.initialized {
        return Ok(*info);
    }
    proof {
        assert(0 <= time_delta * info.emissions_per_second_x64) by (nonlinear_arith)
            requires
                time_delta >= 0,
                info.emissions_per_second_x64 >= 0,
        ;
        lemma_div_round_bounds(
            time_delta * info.emissions_per_second_x64,
            liquidity as int,
            false,
        );
    }
    let reward_growth_delta: u128 = match checked_mul_div(
        time_delta as u128,
        info.emissions_per_second_x64,
        liquidity,
    ) {
        Ok(delta) => delta,
        Err(_) => { return Err(ErrorCode::RewardGrowthOverflow); },
    };
    match info.growth_global_x64.checked_add(reward_growth_delta) {
        Some(growth_global_x64) => Ok(
            WhirlpoolRewardInfo {
                initialized: info.initialized,
                emissions_per_second_x64: info.emissions_per_second_x64,
                growth_global_x64,
            },
        ),
        None => Err(ErrorCode::RewardGrowthOverflow),
    }
}

/// The rewards of a pool at `next_timestamp`.
///
/// Without liquidity they are those of the pool. Otherwise each reward that is set up
/// has grown as `reward_growth_after` says. No reward has less growth than before.
///
/// Fails with `InvalidTimestamp` where `next_timestamp` lies before the last update, and
/// with `RewardGrowthOverflow` where the growth of a reward would exceed 128 bits.
pub fn next_whirlpool_reward_infos(whirlpool: &Whirlpool, next_timestamp: u64) -> (r: Result<
    [WhirlpoolRewardInfo; 3],
    ErrorCode,
>)
    ensures
        r == next_reward_infos(*whirlpool, next_timestamp),
        r matches Ok(infos) ==> forall|i: int|
            0 <= i < 3 ==> (#[trigger] infos@[i]).growth_global_x64
                >= whirlpool.reward_infos@[i].growth_global_x64,
{
    let curr_timestamp: u64 = whirlpool.reward_last_updated_timestamp;
    if next_timestamp < curr_timestamp {
        return Err(ErrorCode::InvalidTimestamp);
    }
    if whirlpool.liquidity == 0 {
        return Ok(whirlpool.reward_infos);
    }
    let time_delta: u64 = next_timestamp - curr_timestamp;
    let first = get_reward_info_after(&whirlpool.reward_infos[0], time_delta, whirlpool.liquidity)?;
    let second = get_reward_info_after(
        &whirlpool.reward_infos[1],
        time_delta,
        whirlpool.liquidity,
    )?;
    let third = get_reward_info_after(&whirlpool.reward_infos[2], time_delta, whirlpool.liquidity)?;
    let infos: [WhirlpoolRewardInfo; 3] = [first, second, third];
    assert(infos@ =~= next_reward_infos(*whirlpool, next_timestamp)->Ok_0@);
    Ok(infos)
}

/// What `next_whirlpool_liquidity` returns.
pub open spec fn next_liquidity(
    whirlpool: Whirlpool,
    tick_upper_index: i32,
    tick_lower_index: i32,
    liquidity_delta: i128,
) -> Result<u128, ErrorCode> {
    if tick_lower_index <= whirlpool.tick_current_index < tick_upper_index {
        liquidity_plus_delta(whirlpool.liquidity, liquidity_delta)
    } else {
        Ok(whirlpool.liquidity)
    }
}

/// The active liquidity of a pool after a position between the two ticks has changed
/// by `liquidity_delta`: changed by as much where the current tick lies in the range,
/// the lower tick counted and the upper one not, and the same otherwise.
pub fn next_whirlpool_liquidity(
    whirlpool: &Whirlpool,
    tick_upper_index: i32,
    tick_lower_index: i32,
    liquidity_delta: i128,
) -> (r: Result<u128, ErrorCode>)
    ensures
        r == next_liquidity(*whirlpool, tick_upper_index, tick_lower_index, liquidity_delta),
{
    if whirlpool.tick_current_index < tick_upper_index && whirlpool.tick_current_index
        >= tick_lower_index {
        add_liquidity_delta(whirlpool.liquidity, liquidity_delta)
    } else {
        Ok(whirlpool.liquidity)
    }
}

} // verus!
