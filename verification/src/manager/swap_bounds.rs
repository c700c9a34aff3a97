//! What bounds a swap: the number of its steps, and the prices through which it moves.

use crate::manager::swap_manager::{
    fees_after, fees_kept, initial_state, lemma_step_moves_ahead, price_target, protocol_share,
    swap_done, swap_iteration, swap_outcome, swap_refusal, swap_steps, tick_ahead,
    tick_crossing, ticks_ahead, SwapParameters, SwapState,
};
use crate::manager::whirlpool_manager::next_reward_infos;
use crate::errors::ErrorCode;
use crate::math::bit_math::{div_round, lemma_ceil_at_most, lemma_div_round_bounds};
use crate::math::swap_math::{
    amount_less_fee, lemma_amount_less_fee_bounded, lemma_step_stays_within_target,
    lemma_step_within_amount, swap_step,
};
use crate::math::token_math::{amount_delta_a, amount_delta_b, next_sqrt_price};
use crate::math::tick_math::{
    sqrt_price_at_tick, MAX_SQRT_PRICE_X64, MAX_TICK_INDEX, MIN_SQRT_PRICE_X64, MIN_TICK_INDEX,
};
use crate::math::token_math::PROTOCOL_FEE_RATE_MUL_VALUE;
use crate::math::u256_math::pow2_64;
use crate::math::tick_order::{
    lemma_price_agrees_with_its_tick, lemma_sqrt_price_at_first_ticks,
    lemma_sqrt_price_increases, price_agrees_with_tick,
};
use crate::state::tick::{lemma_offset_bounds, tick_in, ticks_in_array, TickArray, TICK_ARRAY_SIZE};
use crate::state::whirlpool::Whirlpool;
use crate::util::swap_tick_sequence::{
    initialized_from, lemma_initialized_from_monotonic, lemma_next_initialized_tick_in_bounds,
    lemma_next_initialized_tick_kinds, lemma_same_initialized_from, next_initialized_offset,
    next_initialized_tick, same_initialized,
};
use vstd::prelude::*;

verus! {

/// The number of steps that a swap takes from `state` on; a step that fails is not
/// counted.
pub open spec fn swap_step_count(
    parameters: SwapParameters,
    state: SwapState,
    arrays: Seq<TickArray>,
) -> nat
    decreases ticks_ahead(parameters.a_to_b, state.tick_index),
{
    if swap_done(parameters, state) {
        0
    } else {
        match swap_iteration(parameters, state, arrays) {
            Err(_) => 0,
            Ok((next, next_arrays)) => if swap_done(parameters, next) {
                1
            } else {
                proof {
                    lemma_step_moves_ahead(parameters, state, arrays);
                }
                1 + swap_step_count(parameters, next, next_arrays)
            },
        }
    }
}

/// The number of initialized ticks that lie ahead of a swap: those of the array in
/// which the search for the next tick starts that the search can meet, and those of the
/// arrays after it.
pub open spec fn initialized_ahead(
    parameters: SwapParameters,
    state: SwapState,
    arrays: Seq<TickArray>,
) -> nat {
    if state.array_index >= arrays.len() {
        0
    } else {
        let array = arrays[state.array_index as int];
        let from = array.floor_offset(state.tick_index as int, parameters.tick_spacing);
        let here = if parameters.a_to_b {
            array.count_initialized_down(from)
        } else {
            array.count_initialized_up(from + 1)
        };
        here + initialized_from(arrays, state.array_index + 1)
    }
}

/// What a step leaves behind after which the swap goes on: the step has reached the
/// tick that the traversal has found, the current tick has moved past it, the search
/// goes on in the same array or, from the far edge of it, in the next, and the same
/// ticks are initialized as before.
pub proof fn lemma_step_that_goes_on(
    parameters: SwapParameters,
    state: SwapState,
    arrays: Seq<TickArray>,
)
    requires
        arrays.len() <= usize::MAX,
    ensures
        swap_iteration(parameters, state, arrays) matches Ok((next, next_arrays)) ==> !swap_done(
            parameters,
            next,
        ) ==> {
            let found = next_initialized_tick(
                arrays,
                state.tick_index as int,
                parameters.tick_spacing,
                parameters.a_to_b,
                state.array_index as int,
            )->Ok_0;
            &&& next_initialized_tick(
                arrays,
                state.tick_index as int,
                parameters.tick_spacing,
                parameters.a_to_b,
                state.array_index as int,
            ) is Ok
            &&& tick_ahead(parameters.a_to_b, state.tick_index, found.1)
            &&& next.tick_index == (if parameters.a_to_b {
                found.1 - 1
            } else {
                found.1 as int
            })
            &&& next.array_index == found.0 || next.array_index == found.0 + 1
            &&& same_initialized(arrays, next_arrays)
            &&& forall|i: int|
                0 <= i < arrays.len() ==> (#[trigger] next_arrays[i]).start_tick_index
                    == arrays[i].start_tick_index
        },
{
    match swap_iteration(parameters, state, arrays) {
        Ok((next, next_arrays)) => {
            if !swap_done(parameters, next) {
                lemma_next_initialized_tick_in_bounds(
                    arrays,
                    state.tick_index as int,
                    parameters.tick_spacing,
                    parameters.a_to_b,
                    state.array_index as int,
                );
                let found = next_initialized_tick(
                    arrays,
                    state.tick_index as int,
                    parameters.tick_spacing,
                    parameters.a_to_b,
                    state.array_index as int,
                )->Ok_0;
                let next_tick_price = sqrt_price_at_tick(found.1 as int) as u128;
                lemma_step_within_amount(
                    state.amount_remaining,
                    parameters.fee_rate,
                    state.liquidity,
                    state.sqrt_price,
                    price_target(next_tick_price, parameters.sqrt_price_limit, parameters.a_to_b),
                    parameters.amount_specified_is_input,
                    parameters.a_to_b,
                );
                let array = arrays[found.0 as int];
                match tick_in(array, found.1, parameters.tick_spacing) {
                    Ok(tick) => {
                        if tick.initialized {
                            let offset = array.floor_offset(
                                found.1 as int,
                                parameters.tick_spacing,
                            );
                            assert(0 <= offset < TICK_ARRAY_SIZE) by {
                                lemma_offset_bounds(
                                    found.1 - array.start_tick_index,
                                    parameters.tick_spacing as int,
                                );
                            }
                            let update = tick_crossing(
                                parameters,
                                fees_after(
                                    swap_step(
                                        state.amount_remaining,
                                        parameters.fee_rate,
                                        state.liquidity,
                                        state.sqrt_price,
                                        price_target(
                                            next_tick_price,
                                            parameters.sqrt_price_limit,
                                            parameters.a_to_b,
                                        ),
                                        parameters.amount_specified_is_input,
                                        parameters.a_to_b,
                                    )->Ok_0.fee_amount,
                                    parameters.protocol_fee_rate,
                                    state.liquidity,
                                    state.protocol_fee,
                                    parameters.protocol_fee_owed,
                                    state.fee_growth_global_input,
                                )->Ok_0.1,
                                state.liquidity,
                                tick,
                            )->Ok_0.0;
                            vstd::array::axiom_spec_array_update(
                                array.ticks,
                                offset,
                                update.as_tick(),
                            );
                            let crossed = array.with_tick(offset, update.as_tick());
                            assert(array.same_initialized(crossed)) by {
                                assert forall|o: int| 0 <= o < TICK_ARRAY_SIZE implies (
                                #[trigger] array.ticks@[o]).initialized
                                    == crossed.ticks@[o].initialized by {}
                            }
                            assert(next_arrays == arrays.update(found.0 as int, crossed));
                            assert(same_initialized(arrays, next_arrays)) by {
                                assert forall|i: int| 0 <= i < arrays.len() implies (
                                #[trigger] arrays[i]).same_initialized(next_arrays[i]) by {}
                            }
                        } else {
                            assert(next_arrays == arrays);
                        }
                    },
                    Err(_) => {
                        assert(next_arrays == arrays);
                    },
                }
            }
        },
        Err(_) => {},
    }
}

/// A swap takes at most one step more than initialized ticks lie ahead of it, and so
/// at most one step more than the tick arrays hold initialized ticks.
///
/// Each step after which the swap goes on has reached an initialized tick that the
/// steps before it have not reached; a step that has reached another tick is the
/// last one, for the step after it fails.
pub proof fn lemma_swap_takes_few_steps(
    parameters: SwapParameters,
    state: SwapState,
    arrays: Seq<TickArray>,
)
    requires
        arrays.len() <= usize::MAX,
    ensures
        swap_step_count(parameters, state, arrays) <= initialized_ahead(
            parameters,
            state,
            arrays,
        ) + 1,
        initialized_ahead(parameters, state, arrays) <= initialized_from(arrays, 0),
    decreases ticks_ahead(parameters.a_to_b, state.tick_index),
{
    lemma_initialized_ahead_bounded(parameters, state, arrays);
    if !swap_done(parameters, state) {
        match swap_iteration(parameters, state, arrays) {
            Ok((next, next_arrays)) => {
                if !swap_done(parameters, next) {
                    lemma_step_moves_ahead(parameters, state, arrays);
                    lemma_step_that_goes_on(parameters, state, arrays);
                    lemma_swap_takes_few_steps(parameters, next, next_arrays);
                    let offset = next_initialized_offset(
                        arrays,
                        state.tick_index as int,
                        parameters.tick_spacing,
                        parameters.a_to_b,
                        state.array_index as int,
                    );
                    if offset >= 0 {
                        lemma_fewer_ahead(parameters, state, arrays);
                    } else {
                        lemma_last_step(parameters, state, arrays);
                    }
                }
            },
            Err(_) => {},
        }
    }
}

/// No more initialized ticks lie ahead of a swap than the tick arrays hold.
proof fn lemma_initialized_ahead_bounded(
    parameters: SwapParameters,
    state: SwapState,
    arrays: Seq<TickArray>,
)
    ensures
        initialized_ahead(parameters, state, arrays) <= initialized_from(arrays, 0),
        initialized_ahead(parameters, state, arrays) <= initialized_from(
            arrays,
            state.array_index as int,
        ),
{
    if state.array_index < arrays.len() {
        let array = arrays[state.array_index as int];
        let from = array.floor_offset(state.tick_index as int, parameters.tick_spacing);
        array.lemma_count_split(from + 1);
        lemma_initialized_from_monotonic(arrays, 0, state.array_index as int);
    }
}

/// A step that has reached an initialized tick, and after which the swap goes on,
/// leaves fewer initialized ticks ahead.
proof fn lemma_fewer_ahead(parameters: SwapParameters, state: SwapState, arrays: Seq<TickArray>)
    requires
        arrays.len() <= usize::MAX,
        swap_iteration(parameters, state, arrays) is Ok,
        !swap_done(parameters, swap_iteration(parameters, state, arrays)->Ok_0.0),
        next_initialized_offset(
            arrays,
            state.tick_index as int,
            parameters.tick_spacing,
            parameters.a_to_b,
            state.array_index as int,
        ) >= 0,
    ensures
        initialized_ahead(
            parameters,
            swap_iteration(parameters, state, arrays)->Ok_0.0,
            swap_iteration(parameters, state, arrays)->Ok_0.1,
        ) + 1 <= initialized_ahead(parameters, state, arrays),
{
    let next = swap_iteration(parameters, state, arrays)->Ok_0.0;
    let next_arrays = swap_iteration(parameters, state, arrays)->Ok_0.1;
    let a_to_b = parameters.a_to_b;
    let spacing = parameters.tick_spacing;
    lemma_step_that_goes_on(parameters, state, arrays);
    lemma_next_initialized_tick_kinds(
        arrays,
        state.tick_index as int,
        spacing,
        a_to_b,
        state.array_index as int,
    );
    let found = next_initialized_tick(
        arrays,
        state.tick_index as int,
        spacing,
        a_to_b,
        state.array_index as int,
    )->Ok_0;
    let offset = next_initialized_offset(
        arrays,
        state.tick_index as int,
        spacing,
        a_to_b,
        state.array_index as int,
    );
    let reached = found.0 as int;
    let array = arrays[reached];
    let after = initialized_from(arrays, reached + 1);
    // What lies ahead of the tick reached in its own array and in the arrays after it.
    let beyond = if a_to_b {
        array.count_initialized_down(offset - 1)
    } else {
        array.count_initialized_up(offset + 1)
    };
    array.lemma_scan_goes_on(offset, spacing);
    lemma_same_initialized_from(arrays, next_arrays, reached + 1);
    lemma_same_initialized_from(arrays, next_arrays, reached + 2);
    assert(initialized_ahead(parameters, next, next_arrays) <= beyond + after) by {
        if next.array_index == reached {
            array.lemma_same_initialized_counts(next_arrays[reached], offset - 1);
            array.lemma_same_initialized_counts(next_arrays[reached], offset + 1);
        } else {
            lemma_initialized_ahead_bounded(parameters, next, next_arrays);
        }
    }
    assert(beyond + after + 1 <= initialized_ahead(parameters, state, arrays)) by {
        if state.array_index == reached {
            let from = array.floor_offset(state.tick_index as int, spacing);
            array.lemma_found_counts_down(from);
            array.lemma_found_counts_up(from + 1);
        } else {
            lemma_initialized_from_monotonic(arrays, state.array_index + 1, reached);
            array.lemma_count_down_monotonic(offset, TICK_ARRAY_SIZE - 1);
            array.lemma_count_split(offset);
        }
    }
}

/// A step that has reached a tick that the traversal has not found initialized is the
/// last one: the step after it fails.
proof fn lemma_last_step(parameters: SwapParameters, state: SwapState, arrays: Seq<TickArray>)
    requires
        arrays.len() <= usize::MAX,
        swap_iteration(parameters, state, arrays) is Ok,
        !swap_done(parameters, swap_iteration(parameters, state, arrays)->Ok_0.0),
        next_initialized_offset(
            arrays,
            state.tick_index as int,
            parameters.tick_spacing,
            parameters.a_to_b,
            state.array_index as int,
        ) < 0,
    ensures
        swap_iteration(
            parameters,
            swap_iteration(parameters, state, arrays)->Ok_0.0,
            swap_iteration(parameters, state, arrays)->Ok_0.1,
        ) is Err,
        swap_step_count(
            parameters,
            swap_iteration(parameters, state, arrays)->Ok_0.0,
            swap_iteration(parameters, state, arrays)->Ok_0.1,
        ) == 0,
{
    let next = swap_iteration(parameters, state, arrays)->Ok_0.0;
    let next_arrays = swap_iteration(parameters, state, arrays)->Ok_0.1;
    lemma_step_that_goes_on(parameters, state, arrays);
    lemma_next_initialized_tick_kinds(
        arrays,
        state.tick_index as int,
        parameters.tick_spacing,
        parameters.a_to_b,
        state.array_index as int,
    );
    assert(ticks_in_array(parameters.tick_spacing) >= TICK_ARRAY_SIZE);
}

/// Whether the limit of a swap lies where the trade moves the price: at or below the
/// price where the price falls, at or above it where the price rises, and within the
/// supported prices.
pub open spec fn limit_ahead(parameters: SwapParameters, sqrt_price: u128) -> bool {
    &&& MIN_SQRT_PRICE_X64 <= parameters.sqrt_price_limit <= MAX_SQRT_PRICE_X64
    &&& parameters.a_to_b ==> parameters.sqrt_price_limit <= sqrt_price
    &&& !parameters.a_to_b ==> sqrt_price <= parameters.sqrt_price_limit
}

/// Whether the price has moved from `before` to `after` as the trade moves it, and
/// not beyond the limit.
pub open spec fn moved_towards_limit(parameters: SwapParameters, before: u128, after: u128) -> bool {
    if parameters.a_to_b {
        parameters.sqrt_price_limit <= after <= before
    } else {
        before <= after <= parameters.sqrt_price_limit
    }
}

/// A step keeps the price and the tick in agreement, and moves the price towards the
/// limit and not beyond it.
pub proof fn lemma_step_keeps_agreement(
    parameters: SwapParameters,
    state: SwapState,
    arrays: Seq<TickArray>,
)
    requires
        price_agrees_with_tick(state.sqrt_price, state.tick_index),
        limit_ahead(parameters, state.sqrt_price),
    ensures
        swap_iteration(parameters, state, arrays) matches Ok((next, _)) ==> {
            &&& price_agrees_with_tick(next.sqrt_price, next.tick_index)
            &&& moved_towards_limit(parameters, state.sqrt_price, next.sqrt_price)
        },
{
    match swap_iteration(parameters, state, arrays) {
        Ok((next, _)) => {
            let found = next_initialized_tick(
                arrays,
                state.tick_index as int,
                parameters.tick_spacing,
                parameters.a_to_b,
                state.array_index as int,
            )->Ok_0;
            let next_tick_price = sqrt_price_at_tick(found.1 as int) as u128;
            let target = price_target(
                next_tick_price,
                parameters.sqrt_price_limit,
                parameters.a_to_b,
            );
            // The price of the tick ahead lies where the trade moves the price.
            lemma_sqrt_price_increases(found.1 as int, found.1 as int);
            if parameters.a_to_b {
                lemma_sqrt_price_increases(found.1 as int, state.tick_index as int);
                if found.1 > MIN_TICK_INDEX {
                    lemma_sqrt_price_increases(found.1 - 1, found.1 as int);
                }
            } else {
                lemma_sqrt_price_increases(state.tick_index + 1, found.1 as int);
                if found.1 < MAX_TICK_INDEX {
                    lemma_sqrt_price_increases(found.1 as int, found.1 + 1);
                }
            }
            lemma_step_stays_within_target(
                state.amount_remaining,
                parameters.fee_rate,
                state.liquidity,
                state.sqrt_price,
                target,
                parameters.amount_specified_is_input,
                parameters.a_to_b,
            );
            lemma_price_agrees_with_its_tick(next.sqrt_price);
        },
        Err(_) => {},
    }
}

/// A swap keeps the price and the tick in agreement, and moves the price towards the
/// limit and not beyond it.
pub proof fn lemma_swap_keeps_agreement(
    parameters: SwapParameters,
    state: SwapState,
    arrays: Seq<TickArray>,
)
    requires
        price_agrees_with_tick(state.sqrt_price, state.tick_index),
        limit_ahead(parameters, state.sqrt_price),
    ensures
        swap_steps(parameters, state, arrays) matches Ok((end, _)) ==> {
            &&& price_agrees_with_tick(end.sqrt_price, end.tick_index)
            &&& moved_towards_limit(parameters, state.sqrt_price, end.sqrt_price)
            &&& swap_done(parameters, end)
        },
    decreases ticks_ahead(parameters.a_to_b, state.tick_index),
{
    if !swap_done(parameters, state) {
        match swap_iteration(parameters, state, arrays) {
            Ok((next, next_arrays)) => {
                lemma_step_keeps_agreement(parameters, state, arrays);
                if !swap_done(parameters, next) {
                    lemma_step_moves_ahead(parameters, state, arrays);
                    lemma_swap_keeps_agreement(parameters, next, next_arrays);
                }
            },
            Err(_) => {},
        }
    }
}

/// A swap leaves the pool with a price and a tick that agree, where they agreed
/// before: with a price between the price before and the limit, and a tick that
/// agrees with it. And it ends only where it has used up the amount or reached the
/// limit.
pub proof fn lemma_swap_outcome_agrees(
    whirlpool: Whirlpool,
    arrays: Seq<TickArray>,
    amount: u64,
    sqrt_price_limit: u128,
    amount_specified_is_input: bool,
    a_to_b: bool,
    timestamp: u64,
)
    requires
        price_agrees_with_tick(whirlpool.sqrt_price, whirlpool.tick_current_index),
    ensures
        swap_outcome(
            whirlpool,
            arrays,
            amount,
            sqrt_price_limit,
            amount_specified_is_input,
            a_to_b,
            timestamp,
        ) matches Ok((update, _)) ==> {
            &&& price_agrees_with_tick(update.next_sqrt_price, update.next_tick_index)
            &&& a_to_b ==> sqrt_price_limit <= update.next_sqrt_price <= whirlpool.sqrt_price
            &&& !a_to_b ==> whirlpool.sqrt_price <= update.next_sqrt_price <= sqrt_price_limit
            &&& update.next_sqrt_price == sqrt_price_limit || (if a_to_b
                == amount_specified_is_input {
                update.amount_a == amount
            } else {
                update.amount_b == amount
            })
        },
{
    if swap_refusal(whirlpool, amount, sqrt_price_limit, a_to_b) is None {
        match next_reward_infos(whirlpool, timestamp) {
            Ok(reward_infos) => {
                lemma_swap_keeps_agreement(
                    SwapParameters {
                        tick_spacing: whirlpool.tick_spacing,
                        fee_rate: whirlpool.fee_rate,
                        protocol_fee_rate: whirlpool.protocol_fee_rate,
                        protocol_fee_owed: if a_to_b {
                            whirlpool.protocol_fee_owed_a
                        } else {
                            whirlpool.protocol_fee_owed_b
                        },
                        fee_growth_global_a: whirlpool.fee_growth_global_a,
                        fee_growth_global_b: whirlpool.fee_growth_global_b,
                        reward_infos,
                        sqrt_price_limit,
                        amount_specified_is_input,
                        a_to_b,
                    },
                    initial_state(whirlpool, amount, a_to_b),
                    arrays,
                );
            },
            Err(_) => {},
        }
    }
}

/// A step changes the active liquidity only by crossing a tick, and then by exactly the
/// net liquidity of that tick: upward it adds it, downward it takes it away. The active
/// liquidity stays within its 128 bits; a step that would take it out of them fails.
pub proof fn lemma_step_changes_liquidity_by_net(
    parameters: SwapParameters,
    state: SwapState,
    arrays: Seq<TickArray>,
)
    requires
        arrays.len() <= usize::MAX,
    ensures
        swap_iteration(parameters, state, arrays) matches Ok((next, _)) ==> {
            let found = next_initialized_tick(
                arrays,
                state.tick_index as int,
                parameters.tick_spacing,
                parameters.a_to_b,
                state.array_index as int,
            )->Ok_0;
            let reached = tick_in(arrays[found.0 as int], found.1, parameters.tick_spacing);
            &&& 0 <= next.liquidity <= u128::MAX
            &&& next.liquidity == state.liquidity || (reached matches Ok(tick) && tick.initialized
                && next.sqrt_price == sqrt_price_at_tick(found.1 as int) && next.liquidity == (
            if parameters.a_to_b {
                state.liquidity - tick.liquidity_net
            } else {
                state.liquidity + tick.liquidity_net
            }))
        },
{
    lemma_next_initialized_tick_in_bounds(
        arrays,
        state.tick_index as int,
        parameters.tick_spacing,
        parameters.a_to_b,
        state.array_index as int,
    );
    match swap_iteration(parameters, state, arrays) {
        Ok((next, _)) => {
            let found = next_initialized_tick(
                arrays,
                state.tick_index as int,
                parameters.tick_spacing,
                parameters.a_to_b,
                state.array_index as int,
            )->Ok_0;
            lemma_sqrt_price_increases(found.1 as int, found.1 as int);
        },
        Err(_) => {},
    }
}

/// A step keeps the fees: it lowers neither the fee growth of the token that the swap
/// takes in nor the protocol's fees of the swap, and those fees still fit into 64 bits
/// together with what the protocol was owed before.
pub proof fn lemma_step_keeps_fees(
    parameters: SwapParameters,
    state: SwapState,
    arrays: Seq<TickArray>,
)
    requires
        parameters.protocol_fee_rate <= PROTOCOL_FEE_RATE_MUL_VALUE,
    ensures
        swap_iteration(parameters, state, arrays) matches Ok((next, _)) ==> {
            &&& next.fee_growth_global_input >= state.fee_growth_global_input
            &&& next.protocol_fee >= state.protocol_fee
            &&& parameters.protocol_fee_owed + next.protocol_fee <= u64::MAX
        },
{
    match swap_iteration(parameters, state, arrays) {
        Ok((next, _)) => {
            let found = next_initialized_tick(
                arrays,
                state.tick_index as int,
                parameters.tick_spacing,
                parameters.a_to_b,
                state.array_index as int,
            )->Ok_0;
            let step = swap_step(
                state.amount_remaining,
                parameters.fee_rate,
                state.liquidity,
                state.sqrt_price,
                price_target(
                    sqrt_price_at_tick(found.1 as int) as u128,
                    parameters.sqrt_price_limit,
                    parameters.a_to_b,
                ),
                parameters.amount_specified_is_input,
                parameters.a_to_b,
            )->Ok_0;
            let share = protocol_share(step.fee_amount, parameters.protocol_fee_rate);
            lemma_protocol_share_bounded(step.fee_amount, parameters.protocol_fee_rate);
            let rest = step.fee_amount - share;
            if state.liquidity > 0 {
                assert(rest * pow2_64() / (state.liquidity as int) >= 0) by (nonlinear_arith)
                    requires
                        rest >= 0,
                        pow2_64() > 0,
                        state.liquidity > 0,
                ;
            }
        },
        Err(_) => {},
    }
}

/// The protocol's share of a fee is a part of the fee, where the protocol fee rate is
/// at most the whole.
pub proof fn lemma_protocol_share_bounded(fee_amount: u64, protocol_fee_rate: u16)
    ensures
        0 <= protocol_share(fee_amount, protocol_fee_rate),
        protocol_fee_rate <= PROTOCOL_FEE_RATE_MUL_VALUE ==> protocol_share(
            fee_amount,
            protocol_fee_rate,
        ) <= fee_amount,
{
    assert(0 <= fee_amount * protocol_fee_rate && (protocol_fee_rate <= 10_000 ==> fee_amount
        * protocol_fee_rate <= fee_amount * 10_000)) by (nonlinear_arith)
        requires
            fee_amount >= 0,
            protocol_fee_rate >= 0,
    ;
}

/// A swap keeps the fees: from step to step the fee growth of the token that the swap
/// takes in and the protocol's fees of the swap do not fall, and the protocol's fees
/// still fit into 64 bits together with what the protocol was owed before.
pub proof fn lemma_swap_keeps_fees(
    parameters: SwapParameters,
    state: SwapState,
    arrays: Seq<TickArray>,
)
    requires
        parameters.protocol_fee_rate <= PROTOCOL_FEE_RATE_MUL_VALUE,
        parameters.protocol_fee_owed + state.protocol_fee <= u64::MAX,
    ensures
        swap_steps(parameters, state, arrays) matches Ok((end, _)) ==> {
            &&& end.fee_growth_global_input >= state.fee_growth_global_input
            &&& end.protocol_fee >= state.protocol_fee
            &&& parameters.protocol_fee_owed + end.protocol_fee <= u64::MAX
        },
    decreases ticks_ahead(parameters.a_to_b, state.tick_index),
{
    if !swap_done(parameters, state) {
        match swap_iteration(parameters, state, arrays) {
            Ok((next, next_arrays)) => {
                lemma_step_keeps_fees(parameters, state, arrays);
                if !swap_done(parameters, next) {
                    lemma_step_moves_ahead(parameters, state, arrays);
                    lemma_swap_keeps_fees(parameters, next, next_arrays);
                }
            },
            Err(_) => {},
        }
    }
}

/// A swap that succeeds does not lower the fee growth of the token that it takes in,
/// and the other fee growth it does not touch.
pub proof fn lemma_swap_outcome_keeps_fees(
    whirlpool: Whirlpool,
    arrays: Seq<TickArray>,
    amount: u64,
    sqrt_price_limit: u128,
    amount_specified_is_input: bool,
    a_to_b: bool,
    timestamp: u64,
)
    ensures
        swap_outcome(
            whirlpool,
            arrays,
            amount,
            sqrt_price_limit,
            amount_specified_is_input,
            a_to_b,
            timestamp,
        ) matches Ok((update, _)) ==> {
            &&& fees_kept(whirlpool, update, a_to_b)
            &&& whirlpool.after_swap(
                update.next_liquidity,
                update.next_tick_index,
                update.next_sqrt_price,
                update.next_fee_growth_global,
                update.next_reward_infos,
                update.next_protocol_fee,
                a_to_b,
                timestamp,
            ) matches Ok(pool) && pool.fee_growth_global_a >= whirlpool.fee_growth_global_a
                && pool.fee_growth_global_b >= whirlpool.fee_growth_global_b
        },
{
    if swap_refusal(whirlpool, amount, sqrt_price_limit, a_to_b) is None {
        match next_reward_infos(whirlpool, timestamp) {
            Ok(reward_infos) => {
                lemma_swap_keeps_fees(
                    SwapParameters {
                        tick_spacing: whirlpool.tick_spacing,
                        fee_rate: whirlpool.fee_rate,
                        protocol_fee_rate: whirlpool.protocol_fee_rate,
                        protocol_fee_owed: if a_to_b {
                            whirlpool.protocol_fee_owed_a
                        } else {
                            whirlpool.protocol_fee_owed_b
                        },
                        fee_growth_global_a: whirlpool.fee_growth_global_a,
                        fee_growth_global_b: whirlpool.fee_growth_global_b,
                        reward_infos,
                        sqrt_price_limit,
                        amount_specified_is_input,
                        a_to_b,
                    },
                    initial_state(whirlpool, amount, a_to_b),
                    arrays,
                );
            },
            Err(_) => {},
        }
    }
}

/// A small swap stays within the current tick. A pool stands at tick zero, at a price
/// of one, with a tick spacing of 64 and a liquidity of `10^9`; the one tick array starts
/// at tick zero and holds no initialized tick. A swap of 1000 of token B for token A,
/// without a limit short of the largest price, then ends after one step:
///
/// - it uses all of the 1000, fee included;
/// - the price rises, to the price to which the 1000 less the fee move it;
/// - token A is paid out as it lies between the two prices, rounded down;
/// - no tick is crossed: the liquidity and the tick array are as they were.
///
/// It fails only where the pool's rates exceed their maximum, the timestamp lies
/// before the pool's, or one of the pool's accumulators would overflow.
#[verifier::rlimit(40)]
pub proof fn lemma_small_swap_stays_within_tick(
    whirlpool: Whirlpool,
    array: TickArray,
    timestamp: u64,
)
    requires
        whirlpool.sqrt_price == 0x1_0000_0000_0000_0000,
        whirlpool.tick_current_index == 0,
        whirlpool.tick_spacing == 64,
        whirlpool.liquidity == 1_000_000_000,
        array.start_tick_index == 0,
        array.none_initialized(),
    ensures
        match swap_outcome(
            whirlpool,
            seq![array],
            1000,
            MAX_SQRT_PRICE_X64,
            true,
            false,
            timestamp,
        ) {
            Ok((update, arrays)) => {
                let moving = amount_less_fee(1000, whirlpool.fee_rate, true) as u64;
                &&& update.amount_b == 1000
                &&& whirlpool.sqrt_price < update.next_sqrt_price <= MAX_SQRT_PRICE_X64
                &&& next_sqrt_price(whirlpool.sqrt_price, whirlpool.liquidity, moving, true, false)
                    == Ok::<u128, ErrorCode>(update.next_sqrt_price)
                &&& amount_delta_a(
                    whirlpool.sqrt_price,
                    update.next_sqrt_price,
                    whirlpool.liquidity,
                    false,
                ) == Ok::<u64, ErrorCode>(update.amount_a)
                &&& update.next_liquidity == whirlpool.liquidity
                &&& arrays == seq![array]
            },
            Err(e) => {
                ||| e == ErrorCode::FeeRateMaxExceeded
                ||| e == ErrorCode::ProtocolFeeRateMaxExceeded
                ||| e == ErrorCode::InvalidTimestamp
                ||| e == ErrorCode::RewardGrowthOverflow
                ||| e == ErrorCode::FeeGrowthOverflow
                ||| e == ErrorCode::ProtocolFeeOverflow
            },
        },
{
    let arrays = seq![array];
    let one: u128 = 0x1_0000_0000_0000_0000;
    let liquidity: u128 = 1_000_000_000;
    if swap_refusal(whirlpool, 1000, MAX_SQRT_PRICE_X64, false) is None {
        match next_reward_infos(whirlpool, timestamp) {
            Ok(reward_infos) => {
                let parameters = SwapParameters {
                    tick_spacing: whirlpool.tick_spacing,
                    fee_rate: whirlpool.fee_rate,
                    protocol_fee_rate: whirlpool.protocol_fee_rate,
                    protocol_fee_owed: whirlpool.protocol_fee_owed_b,
                    fee_growth_global_a: whirlpool.fee_growth_global_a,
                    fee_growth_global_b: whirlpool.fee_growth_global_b,
                    reward_infos,
                    sqrt_price_limit: MAX_SQRT_PRICE_X64,
                    amount_specified_is_input: true,
                    a_to_b: false,
                };
                let state = initial_state(whirlpool, 1000, false);
                // The traversal ends at the last tick of the array.
                array.lemma_none_initialized(1);
                assert(array.floor_offset(0, 64) == 0);
                assert(next_initialized_tick(arrays, 0, 64, false, 0) == Ok::<
                    (usize, i32),
                    ErrorCode,
                >((0usize, 5631i32)));
                // The price of that tick lies far above the price of the pool.
                lemma_sqrt_price_at_first_ticks();
                lemma_sqrt_price_increases(1, 5631);
                let target = sqrt_price_at_tick(5631) as u128;
                assert(price_target(target, MAX_SQRT_PRICE_X64, false) == target);
                let width = (target - one) as u128;
                assert(liquidity * width >= 1_000_000_000 * 922314146408234 && liquidity * width
                    < 1_000_000_000 * 0x2_0000_0000_0000_0000_0000_0000) by (nonlinear_arith)
                    requires
                        liquidity == 1_000_000_000,
                        922314146408234 <= width < 0x2_0000_0000_0000_0000_0000_0000,
                ;
                lemma_amount_less_fee_bounded(1000, whirlpool.fee_rate);
                let moving = amount_less_fee(1000, whirlpool.fee_rate, true);
                assert(990 <= moving <= 1000) by {
                    assert(1000 * (1_000_000 - whirlpool.fee_rate) >= 1000 * 990_000);
                }
                // The amount moves the price upward by at least one unit.
                let moved = div_round(moving * pow2_64(), liquidity as int, false);
                assert(moved == moving * pow2_64() / 1_000_000_000);
                assert(1 <= moved <= 0x1_0000_0000_0000_0000);
                let next = (one + moved) as u128;
                assert(next_sqrt_price(one, liquidity, moving as u64, true, false) == Ok::<
                    u128,
                    ErrorCode,
                >(next));
                lemma_step_stays_within_target(
                    1000,
                    whirlpool.fee_rate,
                    liquidity,
                    one,
                    target,
                    true,
                    false,
                );
                lemma_step_within_amount(
                    1000,
                    whirlpool.fee_rate,
                    liquidity,
                    one,
                    target,
                    true,
                    false,
                );
                // Both amounts between the two prices can be computed.
                let product = liquidity * moved;
                assert(0 <= product <= moving * pow2_64() && liquidity * moved * pow2_64()
                    == product * pow2_64()) by (nonlinear_arith)
                    requires
                        product == liquidity * moved,
                        moved * liquidity <= moving * pow2_64(),
                        liquidity == 1_000_000_000,
                        moved >= 0,
                ;
                let floor = next * one;
                assert(floor >= pow2_64() * pow2_64() && floor > 0) by (nonlinear_arith)
                    requires
                        floor == next * one,
                        one == pow2_64(),
                        next >= pow2_64(),
                ;
                lemma_div_round_bounds(moving * pow2_64(), liquidity as int, false);
                assert(product * pow2_64() <= 1000 * floor) by (nonlinear_arith)
                    requires
                        0 <= product <= moving * pow2_64(),
                        moving <= 1000,
                        floor >= pow2_64() * pow2_64(),
                ;
                lemma_ceil_at_most(product * pow2_64(), floor, 1000);
                assert(amount_delta_a(one, next, liquidity, false) is Ok);
                assert(amount_delta_b(one, next, liquidity, true) is Ok);
                assert(5631int % 64 != 0);
            },
            Err(_) => {},
        }
    }
}

} // verus!
