use crate::errors::ErrorCode;
use crate::math::liquidity_math::{add_liquidity_delta, liquidity_plus_delta};
use crate::state::tick::{Tick, TickUpdate};
use crate::state::whirlpool::WhirlpoolRewardInfo;
use vstd::prelude::*;

verus! {

/// The growth on the other side of a tick: `global - outside`, modulo `2^128`.
pub open spec fn flipped(global: u128, outside: u128) -> u128 {
    global.wrapping_sub(outside)
}

/// The growth of a reward on the other side of a tick; as it is for a reward that is
/// not set up.
pub open spec fn flipped_reward(info: WhirlpoolRewardInfo, outside: u128) -> u128 {
    if info.initialized {
        flipped(info.growth_global_x64, outside)
    } else {
        outside
    }
}

/// The contents of a tick once the price has crossed it: what had grown on one side of
/// it is now what has grown on the other side. Liquidity and the initialized flag stay.
pub open spec fn crossed_tick(
    tick: Tick,
    fee_growth_global_a: u128,
    fee_growth_global_b: u128,
    reward_infos: [WhirlpoolRewardInfo; 3],
) -> TickUpdate {
    TickUpdate {
        initialized: tick.initialized,
        liquidity_net: tick.liquidity_net,
        liquidity_gross: tick.liquidity_gross,
        fee_growth_outside_a: flipped(fee_growth_global_a, tick.fee_growth_outside_a),
        fee_growth_outside_b: flipped(fee_growth_global_b, tick.fee_growth_outside_b),
        reward_growths_outside: [
            flipped_reward(reward_infos@[0], tick.reward_growths_outside@[0]),
            flipped_reward(reward_infos@[1], tick.reward_growths_outside@[1]),
            flipped_reward(reward_infos@[2], tick.reward_growths_outside@[2]),
        ],
    }
}

fn get_flipped_reward(info: &WhirlpoolRewardInfo, outside: u128) -> (r: u128)
    ensures
        r == flipped_reward(*info, outside),
{
    if info.initialized {
        info.growth_global_x64.wrapping_sub(outside)
    } else {
        outside
    }
}

/// The contents of a tick once the price has crossed it.
pub fn next_tick_cross_update(
    tick: &Tick,
    fee_growth_global_a: u128,
    fee_growth_global_b: u128,
    reward_infos: &[WhirlpoolRewardInfo; 3],
) -> (update: TickUpdate)
    ensures
        update == crossed_tick(*tick, fee_growth_global_a, fee_growth_global_b, *reward_infos),
{
    let update = TickUpdate {
        initialized: tick.initialized,
        liquidity_net: tick.liquidity_net,
        liquidity_gross: tick.liquidity_gross,
        fee_growth_outside_a: fee_growth_global_a.wrapping_sub(tick.fee_growth_outside_a),
        fee_growth_outside_b: fee_growth_global_b.wrapping_sub(tick.fee_growth_outside_b),
        reward_growths_outside: [
            get_flipped_reward(&reward_infos[0], tick.reward_growths_outside[0]),
            get_flipped_reward(&reward_infos[1], tick.reward_growths_outside[1]),
            get_flipped_reward(&reward_infos[2], tick.reward_growths_outside[2]),
        ],
    };
    assert(update.reward_growths_outside@ =~= crossed_tick(
        *tick,
        fee_growth_global_a,
        fee_growth_global_b,
        *reward_infos,
    ).reward_growths_outside@);
    update
}

/// The liquidity that a tick adds when the price crosses it upward, after a position
/// that ends at it (`is_upper_tick`) or begins at it has changed by `liquidity_delta`.
pub open spec fn net_after(liquidity_net: i128, liquidity_delta: i128, is_upper_tick: bool) -> int {
    if is_upper_tick {
        liquidity_net - liquidity_delta
    } else {
        liquidity_net + liquidity_delta
    }
}

/// The update that clears a tick: it writes the tick that no position refers to.
pub open spec fn cleared_tick() -> TickUpdate {
    TickUpdate {
        initialized: false,
        liquidity_net: 0,
        liquidity_gross: 0,
        fee_growth_outside_a: 0,
        fee_growth_outside_b: 0,
        reward_growths_outside: [0u128, 0u128, 0u128],
    }
}

/// What `next_tick_modify_liquidity_update` returns.
///
/// A zero change leaves the tick as it is. A tick whose gross liquidity falls to zero
/// is cleared. A tick that had no liquidity starts with all growth so far counted
/// below it: its growth outside is the global growth where the current tick is at or
/// above it, and zero otherwise.
pub open spec fn modified_tick(
    tick: Tick,
    tick_index: i32,
    tick_current_index: i32,
    fee_growth_global_a: u128,
    fee_growth_global_b: u128,
    reward_infos: [WhirlpoolRewardInfo; 3],
    liquidity_delta: i128,
    is_upper_tick: bool,
) -> Result<TickUpdate, ErrorCode> {
    let net = net_after(tick.liquidity_net, liquidity_delta, is_upper_tick);
    let below = tick_current_index >= tick_index;
    if liquidity_delta == 0 {
        Ok(
            TickUpdate {
                initialized: tick.initialized,
                liquidity_net: tick.liquidity_net,
                liquidity_gross: tick.liquidity_gross,
                fee_growth_outside_a: tick.fee_growth_outside_a,
                fee_growth_outside_b: tick.fee_growth_outside_b,
                reward_growths_outside: tick.reward_growths_outside,
            },
        )
    } else {
        match liquidity_plus_delta(tick.liquidity_gross, liquidity_delta) {
            Err(e) => Err(e),
            Ok(gross) => if gross == 0 {
                Ok(cleared_tick())
            } else if !(i128::MIN <= net <= i128::MAX) {
                Err(ErrorCode::LiquidityNetError)
            } else if tick.liquidity_gross != 0 {
                Ok(
                    TickUpdate {
                        initialized: true,
                        liquidity_net: net as i128,
                        liquidity_gross: gross,
                        fee_growth_outside_a: tick.fee_growth_outside_a,
                        fee_growth_outside_b: tick.fee_growth_outside_b,
                        reward_growths_outside: tick.reward_growths_outside,
                    },
                )
            } else if below {
                Ok(
                    TickUpdate {
                        initialized: true,
                        liquidity_net: net as i128,
                        liquidity_gross: gross,
                        fee_growth_outside_a: fee_growth_global_a,
                        fee_growth_outside_b: fee_growth_global_b,
                        reward_growths_outside: [
                            reward_infos@[0].growth_global_x64,
                            reward_infos@[1].growth_global_x64,
                            reward_infos@[2].growth_global_x64,
                        ],
                    },
                )
            } else {
                Ok(
                    TickUpdate {
                        initialized: true,
                        liquidity_net: net as i128,
                        liquidity_gross: gross,
                        fee_growth_outside_a: 0,
                        fee_growth_outside_b: 0,
                        reward_growths_outside: [0u128, 0u128, 0u128],
                    },
                )
            },
        }
    }
}

/// The contents of a tick after a position that begins or ends at it has changed its
/// liquidity by `liquidity_delta`.
///
/// Fails with `LiquidityOverflow` or `LiquidityUnderflow` where the gross liquidity
/// leaves the 128 bits, and with `LiquidityNetError` where the net liquidity leaves the
/// signed 128 bits.
pub fn next_tick_modify_liquidity_update(
    tick: &Tick,
    tick_index: i32,
    tick_current_index: i32,
    fee_growth_global_a: u128,
    fee_growth_global_b: u128,
    reward_infos: &[WhirlpoolRewardInfo; 3],
    liquidity_delta: i128,
    is_upper_tick: bool,
) -> (r: Result<TickUpdate, ErrorCode>)
    ensures
        r == modified_tick(
            *tick,
            tick_index,
            tick_current_index,
            fee_growth_global_a,
            fee_growth_global_b,
            *reward_infos,
            liquidity_delta,
            is_upper_tick,
        ),
{
    if liquidity_delta == 0 {
        return Ok(TickUpdate::from(tick));
    }
    let liquidity_gross: u128 = add_liquidity_delta(tick.liquidity_gross, liquidity_delta)?;

    if liquidity_gross == 0 {
        let update = TickUpdate {
            initialized: false,
            liquidity_net: 0,
            liquidity_gross: 0,
            fee_growth_outside_a: 0,
            fee_growth_outside_b: 0,
            reward_growths_outside: [0, 0, 0],
        };
        assert(update.reward_growths_outside@ =~= cleared_tick().reward_growths_outside@);
        return Ok(update);
    }
    let (fee_growth_outside_a, fee_growth_outside_b, reward_growths_outside) =
        if tick.liquidity_gross == 0 {
        if tick_current_index >= tick_index {
            (
                fee_growth_global_a,
                fee_growth_global_b,
                WhirlpoolRewardInfo::to_reward_growths(reward_infos),
            )
        } else {
            (0, 0, [0, 0, 0])
        }
    } else {
        (tick.fee_growth_outside_a, tick.fee_growth_outside_b, tick.reward_growths_outside)
    };

    let liquidity_net: i128 = match if is_upper_tick {
        tick.liquidity_net.checked_sub(liquidity_delta)
    } else {
        tick.liquidity_net.checked_add(liquidity_delta)
    } {
        Some(v) => v,
        None => { return Err(ErrorCode::LiquidityNetError); },
    };
    let update = TickUpdate {
        initialized: true,
        liquidity_net,
        liquidity_gross,
        fee_growth_outside_a,
        fee_growth_outside_b,
        reward_growths_outside,
    };
    proof {
        let expected = modified_tick(
            *tick,
            tick_index,
            tick_current_index,
            fee_growth_global_a,
            fee_growth_global_b,
            *reward_infos,
            liquidity_delta,
            is_upper_tick,
        );
        assert(expected is Ok);
        assert(update.reward_growths_outside@ =~= expected->Ok_0.reward_growths_outside@);
        assert(update.reward_growths_outside == expected->Ok_0.reward_growths_outside);
        assert(update == expected->Ok_0);
    }
    Ok(update)
}

/// The growth inside a range of ticks: `global - below - above`, modulo `2^128`.
///
/// What has grown below the lower tick is the global growth where that tick is not
/// initialized, the other side of its growth outside where the current tick is below
/// it, and its growth outside otherwise. What has grown above the upper tick is zero
/// where that tick is not initialized, its growth outside where the current tick is
/// below it, and the other side of its growth outside otherwise.
pub open spec fn growth_inside(
    tick_current_index: i32,
    lower_initialized: bool,
    lower_outside: u128,
    tick_lower_index: i32,
    upper_initialized: bool,
    upper_outside: u128,
    tick_upper_index: i32,
    global: u128,
) -> u128 {
    let below = if !lower_initialized {
        global
    } else if tick_current_index < tick_lower_index {
        flipped(global, lower_outside)
    } else {
        lower_outside
    };
    let above = if !upper_initialized {
        0
    } else if tick_current_index < tick_upper_index {
        upper_outside
    } else {
        flipped(global, upper_outside)
    };
    global.wrapping_sub(below).wrapping_sub(above)
}

fn get_growth_inside(
    tick_current_index: i32,
    lower_initialized: bool,
    lower_outside: u128,
    tick_lower_index: i32,
    upper_initialized: bool,
    upper_outside: u128,
    tick_upper_index: i32,
    global: u128,
) -> (r: u128)
    ensures
        r == growth_inside(
            tick_current_index,
            lower_initialized,
            lower_outside,
            tick_lower_index,
            upper_initialized,
            upper_outside,
            tick_upper_index,
            global,
        ),
{
    let below: u128 = if !lower_initialized {
        global
    } else if tick_current_index < tick_lower_index {
        global.wrapping_sub(lower_outside)
    } else {
        lower_outside
    };
    let above: u128 = if !upper_initialized {
        0
    } else if tick_current_index < tick_upper_index {
        upper_outside
    } else {
        global.wrapping_sub(upper_outside)
    };
    global.wrapping_sub(below).wrapping_sub(above)
}

/// The fee growth of token A and of token B inside the range between two ticks.
pub open spec fn fee_growths_inside(
    tick_current_index: i32,
    tick_lower: Tick,
    tick_lower_index: i32,
    tick_upper: Tick,
    tick_upper_index: i32,
    fee_growth_global_a: u128,
    fee_growth_global_b: u128,
) -> (u128, u128) {
    (
        growth_inside(
            tick_current_index,
            tick_lower.initialized,
            tick_lower.fee_growth_outside_a,
            tick_lower_index,
            tick_upper.initialized,
            tick_upper.fee_growth_outside_a,
            tick_upper_index,
            fee_growth_global_a,
        ),
        growth_inside(
            tick_current_index,
            tick_lower.initialized,
            tick_lower.fee_growth_outside_b,
            tick_lower_index,
            tick_upper.initialized,
            tick_upper.fee_growth_outside_b,
            tick_upper_index,
            fee_growth_global_b,
        ),
    )
}

/// The fee growth of both tokens inside the range between two ticks.
pub fn next_fee_growths_inside(
    tick_current_index: i32,
    tick_lower: &Tick,
    tick_lower_index: i32,
    tick_upper: &Tick,
    tick_upper_index: i32,
    fee_growth_global_a: u128,
    fee_growth_global_b: u128,
) -> (r: (u128, u128))
    ensures
        r == fee_growths_inside(
            tick_current_index,
            *tick_lower,
            tick_lower_index,
            *tick_upper,
            tick_upper_index,
            fee_growth_global_a,
            fee_growth_global_b,
        ),
{
    (
        get_growth_inside(
            tick_current_index,
            tick_lower.initialized,
            tick_lower.fee_growth_outside_a,
            tick_lower_index,
            tick_upper.initialized,
            tick_upper.fee_growth_outside_a,
            tick_upper_index,
            fee_growth_global_a,
        ),
        get_growth_inside(
            tick_current_index,
            tick_lower.initialized,
            tick_lower.fee_growth_outside_b,
            tick_lower_index,
            tick_upper.initialized,
            tick_upper.fee_growth_outside_b,
            tick_upper_index,
            fee_growth_global_b,
        ),
    )
}

/// The growth of one reward inside the range between two ticks; zero for a reward that
/// is not set up.
pub open spec fn reward_growth_inside(
    tick_current_index: i32,
    tick_lower: Tick,
    tick_lower_index: i32,
    tick_upper: Tick,
    tick_upper_index: i32,
    reward_infos: [WhirlpoolRewardInfo; 3],
    i: int,
) -> u128 {
    if reward_infos@[i].initialized {
        growth_inside(
            tick_current_index,
            tick_lower.initialized,
            tick_lower.reward_growths_outside@[i],
            tick_lower_index,
            tick_upper.initialized,
            tick_upper.reward_growths_outside@[i],
            tick_upper_index,
            reward_infos@[i].growth_global_x64,
        )
    } else {
        0
    }
}

/// The growth of each reward inside the range between two ticks.
pub open spec fn reward_growths_inside(
    tick_current_index: i32,
    tick_lower: Tick,
    tick_lower_index: i32,
    tick_upper: Tick,
    tick_upper_index: i32,
    reward_infos: [WhirlpoolRewardInfo; 3],
) -> [u128; 3] {
    [
        reward_growth_inside(
            tick_current_index,
            tick_lower,
            tick_lower_index,
            tick_upper,
            tick_upper_index,
            reward_infos,
            0,
        ),
        reward_growth_inside(
            tick_current_index,
            tick_lower,
            tick_lower_index,
            tick_upper,
            tick_upper_index,
            reward_infos,
            1,
        ),
        reward_growth_inside(
            tick_current_index,
            tick_lower,
            tick_lower_index,
            tick_upper,
            tick_upper_index,
            reward_infos,
            2,
        ),
    ]
}

fn get_reward_growth_inside(
    tick_current_index: i32,
    tick_lower: &Tick,
    tick_lower_index: i32,
    tick_upper: &Tick,
    tick_upper_index: i32,
    reward_infos: &[WhirlpoolRewardInfo; 3],
    i: usize,
) -> (r: u128)
    requires
        i < 3,
    ensures
        r == reward_growth_inside(
            tick_current_index,
            *tick_lower,
            tick_lower_index,
            *tick_upper,
            tick_upper_index,
            *reward_infos,
            i as int,
        ),
{
    if reward_infos[i].initialized {
        get_growth_inside(
            tick_current_index,
            tick_lower.initialized,
            tick_lower.reward_growths_outside[i],
            tick_lower_index,
            tick_upper.initialized,
            tick_upper.reward_growths_outside[i],
            tick_upper_index,
            reward_infos[i].growth_global_x64,
        )
    } else {
        0
    }
}

/// The growth of each reward inside the range between two ticks.
pub fn next_reward_growths_inside(
    tick_current_index: i32,
    tick_lower: &Tick,
    tick_lower_index: i32,
    tick_upper: &Tick,
    tick_upper_index: i32,
    reward_infos: &[WhirlpoolRewardInfo; 3],
) -> (r: [u128; 3])
    ensures
        r == reward_growths_inside(
            tick_current_index,
            *tick_lower,
            tick_lower_index,
            *tick_upper,
            tick_upper_index,
            *reward_infos,
        ),
{
    let growths: [u128; 3] = [
        get_reward_growth_inside(
            tick_current_index,
            tick_lower,
            tick_lower_index,
            tick_upper,
            tick_upper_index,
            reward_infos,
            0,
        ),
        get_reward_growth_inside(
            tick_current_index,
            tick_lower,
            tick_lower_index,
            tick_upper,
            tick_upper_index,
            reward_infos,
            1,
        ),
        get_reward_growth_inside(
            tick_current_index,
            tick_lower,
            tick_lower_index,
            tick_upper,
            tick_upper_index,
            reward_infos,
            2,
        ),
    ];
    assert(growths@ =~= reward_growths_inside(
        tick_current_index,
        *tick_lower,
        tick_lower_index,
        *tick_upper,
        tick_upper_index,
        *reward_infos,
    )@);
    growths
}

} // verus!
