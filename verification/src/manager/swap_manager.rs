use crate::errors::ErrorCode;
use crate::manager::tick_manager::{crossed_tick, next_tick_cross_update};
use crate::manager::whirlpool_manager::{next_reward_infos, next_whirlpool_reward_infos};
use crate::math::bit_math::Q64_RESOLUTION;
use crate::math::swap_math::{
    compute_swap, lemma_step_within_amount, swap_step, SwapStepComputation,
};
use crate::math::tick_math::{
    sqrt_price_at_tick, sqrt_price_from_tick_index, tick_at_sqrt_price,
    tick_index_from_sqrt_price, MAX_SQRT_PRICE_X64, MAX_TICK_INDEX, MIN_SQRT_PRICE_X64,
    MIN_TICK_INDEX,
};
use crate::math::token_math::{
    MAX_FEE_RATE, MAX_PROTOCOL_FEE_RATE, PROTOCOL_FEE_RATE_MUL_VALUE,
};
use crate::math::u256_math::pow2_64;
use crate::state::tick::{tick_in, Tick, TickArray, TickUpdate, TICK_ARRAY_SIZE};
use crate::state::whirlpool::{Whirlpool, WhirlpoolRewardInfo};
use crate::util::swap_tick_sequence::{
    lemma_next_initialized_tick_in_bounds, next_initialized_tick, SwapTickSequence,
};
use crate::manager::swap_bounds::lemma_swap_keeps_fees;
use vstd::prelude::*;

verus! {

/// What a swap writes to the pool, and the amounts of the two tokens that it moves.
#[derive(Clone, Copy, Debug, PartialEq, Eq)]
pub struct PostSwapUpdate {
    /// The amount of token A that the swap moves.
    pub amount_a: u64,
    /// The amount of token B that the swap moves.
    pub amount_b: u64,
    /// The active liquidity of the pool.
    pub next_liquidity: u128,
    /// The current tick of the pool.
    pub next_tick_index: i32,
    /// The square-root price of the pool.
    pub next_sqrt_price: u128,
    /// The fee growth of the token that the swap takes in.
    pub next_fee_growth_global: u128,
    /// The rewards of the pool.
    pub next_reward_infos: [WhirlpoolRewardInfo; 3],
    /// The protocol's share of the fees of this swap.
    pub next_protocol_fee: u64,
}

/// What stays the same from step to step of one swap.
#[derive(Clone, Copy, Debug, PartialEq, Eq)]
pub struct SwapParameters {
    /// The tick spacing of the pool.
    pub tick_spacing: u16,
    /// The fee rate of the pool.
    pub fee_rate: u16,
    /// The protocol fee rate of the pool.
    pub protocol_fee_rate: u16,
    /// What the protocol is owed of the token that the swap takes in, when it begins.
    pub protocol_fee_owed: u64,
    /// The fee growth of token A when the swap began.
    pub fee_growth_global_a: u128,
    /// The fee growth of token B when the swap began.
    pub fee_growth_global_b: u128,
    /// The rewards of the pool at the time of the swap.
    pub reward_infos: [WhirlpoolRewardInfo; 3],
    /// The price at which the swap stops at the latest.
    pub sqrt_price_limit: u128,
    /// Whether the amount of the swap is what goes in; else it is what comes out.
    pub amount_specified_is_input: bool,
    /// Whether token A is traded for token B, so that the price falls.
    pub a_to_b: bool,
}

/// What changes from step to step of one swap.
#[derive(Clone, Copy, Debug, PartialEq, Eq, Structural)]
pub struct SwapState {
    /// What is left of the amount of the swap.
    pub amount_remaining: u64,
    /// What has been traded of the other token.
    pub amount_calculated: u64,
    /// The current square-root price.
    pub sqrt_price: u128,
    /// The current tick.
    pub tick_index: i32,
    /// The active liquidity.
    pub liquidity: u128,
    /// The tick array in which the search for the next tick starts.
    pub array_index: usize,
    /// The protocol's share of the fees so far.
    pub protocol_fee: u64,
    /// The fee growth of the token that the swap takes in.
    pub fee_growth_global_input: u128,
}

/// Whether a swap has come to its end: nothing remains of the amount, or the price has
/// reached the limit.
pub open spec fn swap_done(parameters: SwapParameters, state: SwapState) -> bool {
    state.amount_remaining == 0 || state.sqrt_price == parameters.sqrt_price_limit
}

/// The active liquidity past a tick with net liquidity `liquidity_net`: that much more
/// where the price rises across it, and that much less where the price falls. Fails
/// with `LiquidityOverflow` above 128 bits and with `LiquidityUnderflow` below zero.
pub open spec fn liquidity_across(liquidity: u128, liquidity_net: i128, a_to_b: bool) -> Result<
    u128,
    ErrorCode,
> {
    let next = if a_to_b {
        liquidity - liquidity_net
    } else {
        liquidity + liquidity_net
    };
    if next > u128::MAX {
        Err(ErrorCode::LiquidityOverflow)
    } else if next < 0 {
        Err(ErrorCode::LiquidityUnderflow)
    } else {
        Ok(next as u128)
    }
}

/// The protocol's share of a fee: `fee * protocol_fee_rate / 10_000`, rounded down.
pub open spec fn protocol_share(fee_amount: u64, protocol_fee_rate: u16) -> int {
    fee_amount * protocol_fee_rate / (PROTOCOL_FEE_RATE_MUL_VALUE as int)
}

/// The protocol's fees of a swap and the fee growth of the input token after a fee has
/// been taken: the protocol's share is added to its fees, and the rest is added to the
/// fee growth per unit of active liquidity, as a Q64.64 fixed-point number rounded
/// down. Without liquidity the fee growth stays.
///
/// Fails with `ProtocolFeeOverflow` where the protocol's fees, together with what it
/// was owed before the swap, would exceed 64 bits, and with `FeeGrowthOverflow` where the
/// fee growth would exceed 128 bits.
pub open spec fn fees_after(
    fee_amount: u64,
    protocol_fee_rate: u16,
    liquidity: u128,
    protocol_fee: u64,
    protocol_fee_owed: u64,
    fee_growth_global_input: u128,
) -> Result<(u64, u128), ErrorCode> {
    let share = protocol_share(fee_amount, protocol_fee_rate);
    let rest = fee_amount - share;
    let grown = if liquidity > 0 {
        fee_growth_global_input + rest * pow2_64() / (liquidity as int)
    } else {
        fee_growth_global_input as int
    };
    if protocol_fee_owed + protocol_fee + share > u64::MAX {
        Err(ErrorCode::ProtocolFeeOverflow)
    } else if grown > u128::MAX {
        Err(ErrorCode::FeeGrowthOverflow)
    } else {
        Ok(((protocol_fee + share) as u64, grown as u128))
    }
}

/// The price at which a step ends at the latest: that of the next tick, or the limit
/// where that comes first.
pub open spec fn price_target(next_tick_price: u128, sqrt_price_limit: u128, a_to_b: bool) -> u128 {
    if a_to_b {
        if sqrt_price_limit > next_tick_price {
            sqrt_price_limit
        } else {
            next_tick_price
        }
    } else {
        if sqrt_price_limit < next_tick_price {
            sqrt_price_limit
        } else {
            next_tick_price
        }
    }
}

/// Whether the tick at which a step ends lies ahead of the current tick within the
/// supported range: at or below it where the price falls, above it where it rises.
pub open spec fn tick_ahead(a_to_b: bool, tick_index: i32, next_tick_index: i32) -> bool {
    &&& MIN_TICK_INDEX <= next_tick_index <= MAX_TICK_INDEX
    &&& a_to_b ==> next_tick_index <= tick_index
    &&& !a_to_b ==> next_tick_index > tick_index
}

/// The two amounts of a swap after a step: the amount remaining is less by what the
/// step took of the fixed token, and the amount of the other token is more by what the
/// step traded of it. The fee counts as part of what goes in.
///
/// Fails with `AmountCalcOverflow` where the amount of the other token exceeds 64 bits.
pub open spec fn amounts_after(
    amount_remaining: u64,
    amount_calculated: u64,
    step: SwapStepComputation,
    amount_specified_is_input: bool,
) -> Result<(u64, u64), ErrorCode> {
    if amount_specified_is_input {
        if amount_calculated + step.amount_out > u64::MAX {
            Err(ErrorCode::AmountCalcOverflow)
        } else {
            Ok(
                (
                    (amount_remaining - step.amount_in - step.fee_amount) as u64,
                    (amount_calculated + step.amount_out) as u64,
                ),
            )
        }
    } else {
        if amount_calculated + step.amount_in + step.fee_amount > u64::MAX {
            Err(ErrorCode::AmountCalcOverflow)
        } else {
            Ok(
                (
                    (amount_remaining - step.amount_out) as u64,
                    (amount_calculated + step.amount_in + step.fee_amount) as u64,
                ),
            )
        }
    }
}

/// Whether a tick lies at the edge of its array at which a swap leaves the array: at
/// the first offset where the price falls, at the last where it rises.
pub open spec fn at_far_edge(array: TickArray, tick_index: i32, tick_spacing: u16, a_to_b: bool) -> bool {
    &&& array.holds_tick(tick_index as int, tick_spacing)
    &&& array.floor_offset(tick_index as int, tick_spacing) == (if a_to_b {
        0
    } else {
        TICK_ARRAY_SIZE - 1
    })
}

/// What crossing a tick writes to it, and the active liquidity past it.
pub open spec fn tick_crossing(
    parameters: SwapParameters,
    fee_growth_global_input: u128,
    liquidity: u128,
    tick: Tick,
) -> Result<(TickUpdate, u128), ErrorCode> {
    match liquidity_across(liquidity, tick.liquidity_net, parameters.a_to_b) {
        Err(e) => Err(e),
        Ok(next_liquidity) => Ok(
            (
                crossed_tick(
                    tick,
                    if parameters.a_to_b {
                        fee_growth_global_input
                    } else {
                        parameters.fee_growth_global_a
                    },
                    if parameters.a_to_b {
                        parameters.fee_growth_global_b
                    } else {
                        fee_growth_global_input
                    },
                    parameters.reward_infos,
                ),
                next_liquidity,
            ),
        ),
    }
}

/// The state of a swap and the tick arrays after a step that has reached the price of
/// the tick `next_tick_index` in the array `next_array_index`.
///
/// Where that tick is initialized it is crossed: its contents and the active liquidity
/// become what `tick_crossing` says. The current tick moves past the tick reached: to
/// the tick before it where the price falls, and onto it where the price rises. The
/// search goes on in the next array where the tick reached lies at the far edge of its
/// own.
pub open spec fn moved_past_tick(
    parameters: SwapParameters,
    state: SwapState,
    arrays: Seq<TickArray>,
    next_array_index: usize,
    next_tick_index: i32,
) -> Result<(SwapState, Seq<TickArray>), ErrorCode> {
    let array = arrays[next_array_index as int];
    let tick_index = if parameters.a_to_b {
        (next_tick_index - 1) as i32
    } else {
        next_tick_index
    };
    let array_index = if at_far_edge(
        array,
        next_tick_index,
        parameters.tick_spacing,
        parameters.a_to_b,
    ) {
        (next_array_index + 1) as usize
    } else {
        next_array_index
    };
    match tick_in(array, next_tick_index, parameters.tick_spacing) {
        Ok(tick) if tick.initialized => match tick_crossing(
            parameters,
            state.fee_growth_global_input,
            state.liquidity,
            tick,
        ) {
            Err(e) => Err(e),
            Ok((update, liquidity)) => Ok(
                (
                    SwapState { tick_index, array_index, liquidity, ..state },
                    arrays.update(
                        next_array_index as int,
                        array.with_tick(
                            array.floor_offset(next_tick_index as int, parameters.tick_spacing),
                            update.as_tick(),
                        ),
                    ),
                ),
            ),
        },
        _ => Ok((SwapState { tick_index, array_index, ..state }, arrays)),
    }
}

/// One step of a swap.
///
/// The next initialized tick in the direction of the trade is looked for; it must lie
/// ahead of the current tick, else the step fails with `InvalidTickArraySequence`. The
/// step trades up to the price of that tick, or up to the limit where that comes
/// first. The amounts and the fees take what the step has traded. Where the step has
/// reached the price of the tick, the swap moves past the tick; where it has ended at
/// another price, the current tick becomes the tick of that price.
pub open spec fn swap_iteration(
    parameters: SwapParameters,
    state: SwapState,
    arrays: Seq<TickArray>,
) -> Result<(SwapState, Seq<TickArray>), ErrorCode> {
    match next_initialized_tick(
        arrays,
        state.tick_index as int,
        parameters.tick_spacing,
        parameters.a_to_b,
        state.array_index as int,
    ) {
        Err(e) => Err(e),
        Ok((next_array_index, next_tick_index)) => if !tick_ahead(
            parameters.a_to_b,
            state.tick_index,
            next_tick_index,
        ) {
            Err(ErrorCode::InvalidTickArraySequence)
        } else {
            let next_tick_price = sqrt_price_at_tick(next_tick_index as int) as u128;
            match swap_step(
                state.amount_remaining,
                parameters.fee_rate,
                state.liquidity,
                state.sqrt_price,
                price_target(next_tick_price, parameters.sqrt_price_limit, parameters.a_to_b),
                parameters.amount_specified_is_input,
                parameters.a_to_b,
            ) {
                Err(e) => Err(e),
                Ok(step) => match amounts_after(
                    state.amount_remaining,
                    state.amount_calculated,
                    step,
                    parameters.amount_specified_is_input,
                ) {
                    Err(e) => Err(e),
                    Ok((amount_remaining, amount_calculated)) => match fees_after(
                        step.fee_amount,
                        parameters.protocol_fee_rate,
                        state.liquidity,
                        state.protocol_fee,
                        parameters.protocol_fee_owed,
                        state.fee_growth_global_input,
                    ) {
                        Err(e) => Err(e),
                        Ok(fees) => {
                        let traded = SwapState {
                            amount_remaining,
                            amount_calculated,
                            sqrt_price: step.next_price,
                            protocol_fee: fees.0,
                            fee_growth_global_input: fees.1,
                            ..state
                        };
                        if step.next_price == next_tick_price {
                            moved_past_tick(
                                parameters,
                                traded,
                                arrays,
                                next_array_index,
                                next_tick_index,
                            )
                        } else if step.next_price != state.sqrt_price {
                            Ok(
                                (
                                    SwapState {
                                        tick_index: tick_at_sqrt_price(step.next_price) as i32,
                                        ..traded
                                    },
                                    arrays,
                                ),
                            )
                        } else {
                            Ok((traded, arrays))
                        }
                        },
                    },
                },
            }
        },
    }
}

/// How many ticks lie ahead of the current one in the direction of the trade.
pub open spec fn ticks_ahead(a_to_b: bool, tick_index: i32) -> int {
    let ahead = if a_to_b {
        tick_index - MIN_TICK_INDEX + 1
    } else {
        MAX_TICK_INDEX - tick_index
    };
    if ahead < 0 {
        0
    } else {
        ahead
    }
}

/// A step after which the swap goes on has moved the current tick ahead.
pub proof fn lemma_step_moves_ahead(
    parameters: SwapParameters,
    state: SwapState,
    arrays: Seq<TickArray>,
)
    ensures
        swap_iteration(parameters, state, arrays) matches Ok((next, _)) ==> !swap_done(
            parameters,
            next,
        ) ==> ticks_ahead(parameters.a_to_b, next.tick_index) < ticks_ahead(
            parameters.a_to_b,
            state.tick_index,
        ),
{
    match swap_iteration(parameters, state, arrays) {
        Ok((next, _)) => {
            if !swap_done(parameters, next) {
                let found = next_initialized_tick(
                    arrays,
                    state.tick_index as int,
                    parameters.tick_spacing,
                    parameters.a_to_b,
                    state.array_index as int,
                )->Ok_0;
                let next_tick_price = sqrt_price_at_tick(found.1 as int) as u128;
                let target = price_target(
                    next_tick_price,
                    parameters.sqrt_price_limit,
                    parameters.a_to_b,
                );
                lemma_step_within_amount(
                    state.amount_remaining,
                    parameters.fee_rate,
                    state.liquidity,
                    state.sqrt_price,
                    target,
                    parameters.amount_specified_is_input,
                    parameters.a_to_b,
                );
            }
        },
        Err(_) => {},
    }
}

/// The state of a swap and the tick arrays at its end: steps are taken until the swap
/// is done, and the first step that fails gives the error.
pub open spec fn swap_steps(
    parameters: SwapParameters,
    state: SwapState,
    arrays: Seq<TickArray>,
) -> Result<(SwapState, Seq<TickArray>), ErrorCode>
    decreases ticks_ahead(parameters.a_to_b, state.tick_index),
{
    if swap_done(parameters, state) {
        Ok((state, arrays))
    } else {
        match swap_iteration(parameters, state, arrays) {
            Err(e) => Err(e),
            Ok((next, next_arrays)) => if swap_done(parameters, next) {
                Ok((next, next_arrays))
            } else {
                proof {
                    lemma_step_moves_ahead(parameters, state, arrays);
                }
                swap_steps(parameters, next, next_arrays)
            },
        }
    }
}

/// The state in which a swap of `amount` begins.
pub open spec fn initial_state(whirlpool: Whirlpool, amount: u64, a_to_b: bool) -> SwapState {
    SwapState {
        amount_remaining: amount,
        amount_calculated: 0,
        sqrt_price: whirlpool.sqrt_price,
        tick_index: whirlpool.tick_current_index,
        liquidity: whirlpool.liquidity,
        array_index: 0,
        protocol_fee: 0,
        fee_growth_global_input: if a_to_b {
            whirlpool.fee_growth_global_a
        } else {
            whirlpool.fee_growth_global_b
        },
    }
}

/// What a swap that has ended in `state` writes to the pool and moves: of the token
/// that the amount of the swap is given in, what has been used of that amount, and of
/// the other token what has been traded.
pub open spec fn post_swap_update(
    amount: u64,
    state: SwapState,
    reward_infos: [WhirlpoolRewardInfo; 3],
    amount_specified_is_input: bool,
    a_to_b: bool,
) -> PostSwapUpdate {
    let used = (amount - state.amount_remaining) as u64;
    PostSwapUpdate {
        amount_a: if a_to_b == amount_specified_is_input {
            used
        } else {
            state.amount_calculated
        },
        amount_b: if a_to_b == amount_specified_is_input {
            state.amount_calculated
        } else {
            used
        },
        next_liquidity: state.liquidity,
        next_tick_index: state.tick_index,
        next_sqrt_price: state.sqrt_price,
        next_fee_growth_global: state.fee_growth_global_input,
        next_reward_infos: reward_infos,
        next_protocol_fee: state.protocol_fee,
    }
}

/// The error with which a swap is refused before it begins, if it is refused.
///
/// A zero amount gives `ZeroTradableAmount`; a limit outside the supported prices
/// `SqrtPriceOutOfBounds`; a limit above the current price where the price falls, or below
/// it where the price rises, `InvalidSqrtPriceLimitDirection`; a pool with a zero tick
/// spacing `InvalidTickSpacing`; a pool whose fee rate or protocol fee rate exceeds its
/// maximum `FeeRateMaxExceeded` or `ProtocolFeeRateMaxExceeded`.
pub open spec fn swap_refusal(
    whirlpool: Whirlpool,
    amount: u64,
    sqrt_price_limit: u128,
    a_to_b: bool,
) -> Option<ErrorCode> {
    if amount == 0 {
        Some(ErrorCode::ZeroTradableAmount)
    } else if sqrt_price_limit < MIN_SQRT_PRICE_X64 || sqrt_price_limit > MAX_SQRT_PRICE_X64 {
        Some(ErrorCode::SqrtPriceOutOfBounds)
    } else if (a_to_b && sqrt_price_limit > whirlpool.sqrt_price) || (!a_to_b && sqrt_price_limit
        < whirlpool.sqrt_price) {
        Some(ErrorCode::InvalidSqrtPriceLimitDirection)
    } else if whirlpool.tick_spacing == 0 {
        Some(ErrorCode::InvalidTickSpacing)
    } else if whirlpool.fee_rate > MAX_FEE_RATE {
        Some(ErrorCode::FeeRateMaxExceeded)
    } else if whirlpool.protocol_fee_rate > MAX_PROTOCOL_FEE_RATE {
        Some(ErrorCode::ProtocolFeeRateMaxExceeded)
    } else {
        None
    }
}

/// What a swap returns once its steps are taken.
pub open spec fn ending(
    steps: Result<(SwapState, Seq<TickArray>), ErrorCode>,
    amount: u64,
    reward_infos: [WhirlpoolRewardInfo; 3],
    amount_specified_is_input: bool,
    a_to_b: bool,
) -> Result<(PostSwapUpdate, Seq<TickArray>), ErrorCode> {
    match steps {
        Err(e) => Err(e),
        Ok((state, next_arrays)) => Ok(
            (
                post_swap_update(amount, state, reward_infos, amount_specified_is_input, a_to_b),
                next_arrays,
            ),
        ),
    }
}

/// What a swap returns, and the tick arrays after it.
///
/// A swap that is not refused brings the rewards of the pool up to `timestamp` and
/// then takes steps from the pool's price on until it is done.
pub open spec fn swap_outcome(
    whirlpool: Whirlpool,
    arrays: Seq<TickArray>,
    amount: u64,
    sqrt_price_limit: u128,
    amount_specified_is_input: bool,
    a_to_b: bool,
    timestamp: u64,
) -> Result<(PostSwapUpdate, Seq<TickArray>), ErrorCode> {
    match swap_refusal(whirlpool, amount, sqrt_price_limit, a_to_b) {
        Some(e) => Err(e),
        None => match next_reward_infos(whirlpool, timestamp) {
            Err(e) => Err(e),
            Ok(reward_infos) => ending(
                swap_steps(
                    SwapParameters {
                        tick_spacing: whirlpool.tick_spacing,
                        fee_rate: whirlpool.fee_rate,
                        protocol_fee_rate: whirlpool.protocol_fee_rate,
                        protocol_fee_owed: if a_to_b {
                            whirlpool.protocol_fee_owed_a
                        } else {
                            whirlpool.protocol_fee_owed_b
                        },
                        fee_growth_global_a: whirlpool.fee_growth_global_a,
                        fee_growth_global_b: whirlpool.fee_growth_global_b,
                        reward_infos,
                        sqrt_price_limit,
                        amount_specified_is_input,
                        a_to_b,
                    },
                    initial_state(whirlpool, amount, a_to_b),
                    arrays,
                ),
                amount,
                reward_infos,
                amount_specified_is_input,
                a_to_b,
            ),
        },
    }
}

/// Trades `amount` against the pool, along the tick arrays of `swap_tick_sequence`,
/// until the amount is used up or the price reaches `sqrt_price_limit`.
///
/// Returns what the swap writes to the pool and the amounts that it moves; the ticks
/// that it has crossed are written to `swap_tick_sequence`. A swap that fails writes
/// nothing: the tick arrays are then as they were.
///
/// On success the fee growth of the token that the swap takes in is not less than
/// before, and the protocol's fees of the swap can be added to what the protocol was
/// owed without leaving 64 bits.
pub fn swap(
    whirlpool: &Whirlpool,
    swap_tick_sequence: &mut SwapTickSequence,
    amount: u64,
    sqrt_price_limit: u128,
    amount_specified_is_input: bool,
    a_to_b: bool,
    timestamp: u64,
) -> (r: Result<PostSwapUpdate, ErrorCode>)
    ensures
        match swap_outcome(
            *whirlpool,
            old(swap_tick_sequence).arrays@,
            amount,
            sqrt_price_limit,
            amount_specified_is_input,
            a_to_b,
            timestamp,
        ) {
            Err(e) => r == Err::<PostSwapUpdate, ErrorCode>(e) && final(swap_tick_sequence).arrays@
                == old(swap_tick_sequence).arrays@,
            Ok((update, arrays)) => r == Ok::<PostSwapUpdate, ErrorCode>(update) && final(swap_tick_sequence).arrays@ == arrays,
        },
        swap_refusal(*whirlpool, amount, sqrt_price_limit, a_to_b) is Some ==> final(swap_tick_sequence).arrays@
            == old(swap_tick_sequence).arrays@,
        r matches Ok(update) ==> fees_kept(*whirlpool, update, a_to_b),
{
    let mut working = swap_tick_sequence.duplicate();
    let update = swap_in_place(
        whirlpool,
        &mut working,
        amount,
        sqrt_price_limit,
        amount_specified_is_input,
        a_to_b,
        timestamp,
    )?;
    swap_tick_sequence.arrays = working.arrays;
    Ok(update)
}

/// Whether the result of a swap keeps the fees of the pool: the fee growth of the token
/// that the swap has taken in is not less than before, and the protocol's fees of the
/// swap and what the protocol was owed of that token fit into 64 bits together.
pub open spec fn fees_kept(whirlpool: Whirlpool, update: PostSwapUpdate, a_to_b: bool) -> bool {
    if a_to_b {
        &&& update.next_fee_growth_global >= whirlpool.fee_growth_global_a
        &&& whirlpool.protocol_fee_owed_a + update.next_protocol_fee <= u64::MAX
    } else {
        &&& update.next_fee_growth_global >= whirlpool.fee_growth_global_b
        &&& whirlpool.protocol_fee_owed_b + update.next_protocol_fee <= u64::MAX
    }
}

/// The swap itself, on tick arrays that the caller has set aside for it: after a
/// failure they may hold ticks that were crossed before it.
pub(crate) fn swap_in_place(
    whirlpool: &Whirlpool,
    swap_tick_sequence: &mut SwapTickSequence,
    amount: u64,
    sqrt_price_limit: u128,
    amount_specified_is_input: bool,
    a_to_b: bool,
    timestamp: u64,
) -> (r: Result<PostSwapUpdate, ErrorCode>)
    ensures
        match swap_outcome(
            *whirlpool,
            old(swap_tick_sequence).arrays@,
            amount,
            sqrt_price_limit,
            amount_specified_is_input,
            a_to_b,
            timestamp,
        ) {
            Err(e) => r == Err::<PostSwapUpdate, ErrorCode>(e),
            Ok((update, arrays)) => r == Ok::<PostSwapUpdate, ErrorCode>(update) && final(swap_tick_sequence).arrays@ == arrays,
        },
        r matches Ok(update) ==> fees_kept(*whirlpool, update, a_to_b),
{
    if amount == 0 {
        return Err(ErrorCode::ZeroTradableAmount);
    }
    if sqrt_price_limit < MIN_SQRT_PRICE_X64 || sqrt_price_limit > MAX_SQRT_PRICE_X64 {
        return Err(ErrorCode::SqrtPriceOutOfBounds);
    }
    if (a_to_b && sqrt_price_limit > whirlpool.sqrt_price) || (!a_to_b && sqrt_price_limit
        < whirlpool.sqrt_price) {
        return Err(ErrorCode::InvalidSqrtPriceLimitDirection);
    }
    if whirlpool.tick_spacing == 0 {
        return Err(ErrorCode::InvalidTickSpacing);
    }
    if whirlpool.fee_rate > MAX_FEE_RATE {
        return Err(ErrorCode::FeeRateMaxExceeded);
    }
    if whirlpool.protocol_fee_rate > MAX_PROTOCOL_FEE_RATE {
        return Err(ErrorCode::ProtocolFeeRateMaxExceeded);
    }
    let next_reward_infos = next_whirlpool_reward_infos(whirlpool, timestamp)?;

    let parameters = SwapParameters {
        tick_spacing: whirlpool.tick_spacing,
        fee_rate: whirlpool.fee_rate,
        protocol_fee_rate: whirlpool.protocol_fee_rate,
        protocol_fee_owed: if a_to_b {
            whirlpool.protocol_fee_owed_a
        } else {
            whirlpool.protocol_fee_owed_b
        },
        fee_growth_global_a: whirlpool.fee_growth_global_a,
        fee_growth_global_b: whirlpool.fee_growth_global_b,
        reward_infos: next_reward_infos,
        sqrt_price_limit,
        amount_specified_is_input,
        a_to_b,
    };
    let mut state = SwapState {
        amount_remaining: amount,
        amount_calculated: 0,
        sqrt_price: whirlpool.sqrt_price,
        tick_index: whirlpool.tick_current_index,
        liquidity: whirlpool.liquidity,
        array_index: 0,
        protocol_fee: 0,
        fee_growth_global_input: if a_to_b {
            whirlpool.fee_growth_global_a
        } else {
            whirlpool.fee_growth_global_b
        },
    };
    let ghost initial = state;

    loop
        invariant
            parameters.sqrt_price_limit == sqrt_price_limit,
            parameters.a_to_b == a_to_b,
            parameters.protocol_fee_rate <= MAX_PROTOCOL_FEE_RATE,
            swap_outcome(
                *whirlpool,
                old(swap_tick_sequence).arrays@,
                amount,
                sqrt_price_limit,
                amount_specified_is_input,
                a_to_b,
                timestamp,
            ) == ending(
                swap_steps(parameters, initial, old(swap_tick_sequence).arrays@),
                amount,
                next_reward_infos,
                amount_specified_is_input,
                a_to_b,
            ),
            state.amount_remaining <= amount,
            swap_steps(parameters, state, swap_tick_sequence.arrays@) == swap_steps(
                parameters,
                initial,
                old(swap_tick_sequence).arrays@,
            ),
        ensures
            swap_done(parameters, state),
            state.amount_remaining <= amount,
            swap_steps(parameters, state, swap_tick_sequence.arrays@) == swap_steps(
                parameters,
                initial,
                old(swap_tick_sequence).arrays@,
            ),
        decreases ticks_ahead(a_to_b, state.tick_index),
    {
        if state.amount_remaining == 0 || sqrt_price_limit == state.sqrt_price {
            break ;
        }
        proof {
            lemma_step_moves_ahead(parameters, state, swap_tick_sequence.arrays@);
        }
        state = swap_step_once(&parameters, &state, swap_tick_sequence)?;
        if state.amount_remaining == 0 || sqrt_price_limit == state.sqrt_price {
            break ;
        }
    }
    proof {
        lemma_swap_keeps_fees(parameters, initial, old(swap_tick_sequence).arrays@);
    }
    let used: u64 = amount - state.amount_remaining;
    let (amount_a, amount_b) = if a_to_b == amount_specified_is_input {
        (used, state.amount_calculated)
    } else {
        (state.amount_calculated, used)
    };
    Ok(
        PostSwapUpdate {
            amount_a,
            amount_b,
            next_liquidity: state.liquidity,
            next_tick_index: state.tick_index,
            next_sqrt_price: state.sqrt_price,
            next_fee_growth_global: state.fee_growth_global_input,
            next_reward_infos,
            next_protocol_fee: state.protocol_fee,
        },
    )
}

/// Takes one step of a swap that is not done: returns the state after it and writes
/// the tick that it has crossed, if it has crossed one. A step that fails writes nothing.
pub fn swap_step_once(
    parameters: &SwapParameters,
    state: &SwapState,
    swap_tick_sequence: &mut SwapTickSequence,
) -> (r: Result<SwapState, ErrorCode>)
    requires
        parameters.protocol_fee_rate <= PROTOCOL_FEE_RATE_MUL_VALUE,
    ensures
        match swap_iteration(*parameters, *state, old(swap_tick_sequence).arrays@) {
            Err(e) => r == Err::<SwapState, ErrorCode>(e) && final(swap_tick_sequence).arrays@
                == old(swap_tick_sequence).arrays@,
            Ok((next, arrays)) => r == Ok::<SwapState, ErrorCode>(next) && final(swap_tick_sequence).arrays@ == arrays && next.amount_remaining <= state.amount_remaining,
        },
{
    let a_to_b = parameters.a_to_b;
    let tick_spacing: u16 = parameters.tick_spacing;
    let loaded: usize = swap_tick_sequence.arrays.len();
    let (next_array_index, next_tick_index) = swap_tick_sequence.get_next_initialized_tick_index(
        state.tick_index,
        tick_spacing,
        a_to_b,
        state.array_index,
    )?;
    proof {
        lemma_next_initialized_tick_in_bounds(
            old(swap_tick_sequence).arrays@,
            state.tick_index as int,
            tick_spacing,
            a_to_b,
            state.array_index as int,
        );
    }
    if next_tick_index < MIN_TICK_INDEX || next_tick_index > MAX_TICK_INDEX || (a_to_b
        && next_tick_index > state.tick_index) || (!a_to_b && next_tick_index <= state.tick_index) {
        return Err(ErrorCode::InvalidTickArraySequence);
    }
    let (next_tick_sqrt_price, sqrt_price_target) = get_next_sqrt_prices(
        next_tick_index,
        parameters.sqrt_price_limit,
        a_to_b,
    );

    let swap_computation = compute_swap(
        state.amount_remaining,
        parameters.fee_rate,
        state.liquidity,
        state.sqrt_price,
        sqrt_price_target,
        parameters.amount_specified_is_input,
        a_to_b,
    )?;

    let (amount_remaining, amount_calculated) = if parameters.amount_specified_is_input {
        let remaining: u64 = state.amount_remaining - swap_computation.amount_in
            - swap_computation.fee_amount;
        match state.amount_calculated.checked_add(swap_computation.amount_out) {
            Some(calculated) => (remaining, calculated),
            None => { return Err(ErrorCode::AmountCalcOverflow); },
        }
    } else {
        let remaining: u64 = state.amount_remaining - swap_computation.amount_out;
        match state.amount_calculated.checked_add(swap_computation.amount_in) {
            Some(with_input) => match with_input.checked_add(swap_computation.fee_amount) {
                Some(calculated) => (remaining, calculated),
                None => { return Err(ErrorCode::AmountCalcOverflow); },
            },
            None => { return Err(ErrorCode::AmountCalcOverflow); },
        }
    };

    let (protocol_fee, fee_growth_global_input) = calculate_fees(
        swap_computation.fee_amount,
        parameters.protocol_fee_rate,
        state.liquidity,
        state.protocol_fee,
        parameters.protocol_fee_owed,
        state.fee_growth_global_input,
    )?;

    let mut next = SwapState {
        amount_remaining,
        amount_calculated,
        sqrt_price: swap_computation.next_price,
        tick_index: state.tick_index,
        liquidity: state.liquidity,
        array_index: state.array_index,
        protocol_fee,
        fee_growth_global_input,
    };

    if swap_computation.next_price == next_tick_sqrt_price {
        let crossing: Option<(TickUpdate, u128)> = match swap_tick_sequence.get_tick(
            next_array_index,
            next_tick_index,
            tick_spacing,
        ) {
            Ok(tick) => if tick.initialized {
                Some(calculate_update(tick, parameters, fee_growth_global_input, state.liquidity)?)
            } else {
                None
            },
            Err(_) => None,
        };
        match crossing {
            Some((update, next_liquidity)) => {
                next.liquidity = next_liquidity;
                swap_tick_sequence.update_tick(
                    next_array_index,
                    next_tick_index,
                    tick_spacing,
                    &update,
                )?;
            },
            None => {},
        }
        // The search goes on in the next array once the tick at the far edge of this one
        // has been reached.
        let at_edge = match swap_tick_sequence.get_tick_offset(
            next_array_index,
            next_tick_index,
            tick_spacing,
        ) {
            Ok(offset) => (a_to_b && offset == 0) || (!a_to_b && offset == 87),
            Err(_) => false,
        };
        next.array_index = if at_edge && next_array_index < loaded {
            next_array_index + 1
        } else {
            next_array_index
        };
        // Where the price falls, the search counts the tick it starts at: it starts at
        // the tick before the one reached.
        next.tick_index = if a_to_b {
            next_tick_index - 1
        } else {
            next_tick_index
        };
    } else if swap_computation.next_price != state.sqrt_price {
        next.tick_index = tick_index_from_sqrt_price(swap_computation.next_price);
    }
    Ok(next)
}

/// The protocol's share of a fee.
fn calculate_protocol_fee(global_fee: u64, protocol_fee_rate: u16) -> (r: u64)
    requires
        protocol_fee_rate <= PROTOCOL_FEE_RATE_MUL_VALUE,
    ensures
        r == protocol_share(global_fee, protocol_fee_rate),
        r <= global_fee,
{
    assert(0 <= global_fee * protocol_fee_rate <= global_fee * 10_000) by (nonlinear_arith)
        requires
            0 <= protocol_fee_rate <= 10_000,
            global_fee >= 0,
    ;
    ((global_fee as u128) * (protocol_fee_rate as u128) / PROTOCOL_FEE_RATE_MUL_VALUE) as u64
}

/// The protocol's fees and the fee growth of the input token after a fee has been taken.
fn calculate_fees(
    fee_amount: u64,
    protocol_fee_rate: u16,
    curr_liquidity: u128,
    curr_protocol_fee: u64,
    protocol_fee_owed: u64,
    curr_fee_growth_global_input: u128,
) -> (r: Result<(u64, u128), ErrorCode>)
    requires
        protocol_fee_rate <= PROTOCOL_FEE_RATE_MUL_VALUE,
    ensures
        r == fees_after(
            fee_amount,
            protocol_fee_rate,
            curr_liquidity,
            curr_protocol_fee,
            protocol_fee_owed,
            curr_fee_growth_global_input,
        ),
{
    let delta: u64 = calculate_protocol_fee(fee_amount, protocol_fee_rate);
    let global_fee: u64 = fee_amount - delta;
    let next_protocol_fee: u64 = match curr_protocol_fee.checked_add(delta) {
        Some(fee) => fee,
        None => { return Err(ErrorCode::ProtocolFeeOverflow); },
    };
    if protocol_fee_owed.checked_add(next_protocol_fee).is_none() {
        return Err(ErrorCode::ProtocolFeeOverflow);
    }
    let mut next_fee_growth_global_input: u128 = curr_fee_growth_global_input;
    if curr_liquidity > 0 {
        assert((global_fee as u128) << 64 == (global_fee as u128) * 0x1_0000_0000_0000_0000)
            by (bit_vector);
        let growth: u128 = ((global_fee as u128) << Q64_RESOLUTION) / curr_liquidity;
        next_fee_growth_global_input = match next_fee_growth_global_input.checked_add(growth) {
            Some(grown) => grown,
            None => { return Err(ErrorCode::FeeGrowthOverflow); },
        };
    }
    Ok((next_protocol_fee, next_fee_growth_global_input))
}

/// What crossing `tick` writes to it, and the active liquidity past it: more by the
/// tick's net liquidity where the price rises, less by it where the price falls.
///
/// Fails with `LiquidityOverflow` where the active liquidity would exceed 128 bits, and
/// with `LiquidityUnderflow` where it would fall below zero.
pub fn calculate_update(
    tick: &Tick,
    parameters: &SwapParameters,
    fee_growth_global_input: u128,
    liquidity: u128,
) -> (r: Result<(TickUpdate, u128), ErrorCode>)
    ensures
        r == tick_crossing(*parameters, fee_growth_global_input, liquidity, *tick),
{
    let (fee_growth_global_a, fee_growth_global_b) = if parameters.a_to_b {
        (fee_growth_global_input, parameters.fee_growth_global_b)
    } else {
        (parameters.fee_growth_global_a, fee_growth_global_input)
    };
    let update = next_tick_cross_update(
        tick,
        fee_growth_global_a,
        fee_growth_global_b,
        &parameters.reward_infos,
    );
    let next_liquidity: u128 = get_liquidity_across(liquidity, tick.liquidity_net, parameters.a_to_b)?;
    Ok((update, next_liquidity))
}

fn get_liquidity_across(liquidity: u128, liquidity_net: i128, a_to_b: bool) -> (r: Result<
    u128,
    ErrorCode,
>)
    ensures
        r == liquidity_across(liquidity, liquidity_net, a_to_b),
{
    let magnitude: u128 = if liquidity_net == i128::MIN {
        0x8000_0000_0000_0000_0000_0000_0000_0000
    } else if liquidity_net < 0 {
        (-liquidity_net) as u128
    } else {
        liquidity_net as u128
    };
    if (liquidity_net >= 0) == a_to_b {
        match liquidity.checked_sub(magnitude) {
            Some(v) => Ok(v),
            None => Err(ErrorCode::LiquidityUnderflow),
        }
    } else {
        match liquidity.checked_add(magnitude) {
            Some(v) => Ok(v),
            None => Err(ErrorCode::LiquidityOverflow),
        }
    }
}

/// The price of the tick `next_tick_index`, and the price at which a step towards it
/// ends at the latest.
fn get_next_sqrt_prices(next_tick_index: i32, sqrt_price_limit: u128, a_to_b: bool) -> (r: (
    u128,
    u128,
))
    ensures
        r.0 == sqrt_price_at_tick(next_tick_index as int),
        r.1 == price_target(r.0, sqrt_price_limit, a_to_b),
{
    let next_tick_price: u128 = sqrt_price_from_tick_index(next_tick_index);
    let next_sqrt_price_limit: u128 = if a_to_b {
        if sqrt_price_limit > next_tick_price {
            sqrt_price_limit
        } else {
            next_tick_price
        }
    } else {
        if sqrt_price_limit < next_tick_price {
            sqrt_price_limit
        } else {
            next_tick_price
        }
    };
    (next_tick_price, next_sqrt_price_limit)
}

} // verus!
