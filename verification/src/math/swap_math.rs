use crate::errors::ErrorCode;
use crate::math::bit_math::{
    checked_mul_div, checked_mul_div_round_up, div_round, lemma_ceil_at_most,
    lemma_div_round_bounds, lemma_floor_at_least,
};
use crate::math::tick_math::MIN_SQRT_PRICE_X64;
use crate::math::token_math::{
    amount_delta_a, amount_delta_b, get_amount_delta_a, get_amount_delta_b, get_next_sqrt_price,
    lemma_amount_delta_a_monotonic, lemma_amount_delta_b_monotonic, next_price_a_denominator,
    next_sqrt_price, next_sqrt_price_from_a, next_sqrt_price_from_b, FEE_RATE_MUL_VALUE,
};
use crate::math::u256_math::pow2_64;
use vstd::prelude::*;

verus! {

/// What one step of a swap trades, and the price at which it ends.
#[derive(Clone, Copy, Debug, PartialEq, Eq, Structural)]
pub struct SwapStepComputation {
    /// The amount that enters the pool, without the fee.
    pub amount_in: u64,
    /// The amount that leaves the pool.
    pub amount_out: u64,
    /// The square-root price after the step.
    pub next_price: u128,
    /// The fee on the amount that enters the pool.
    pub fee_amount: u64,
}

/// The amount of the token that the trade fixes between two prices: rounded up where it
/// is an input, down where it is an output.
pub open spec fn amount_fixed_delta(
    sqrt_price_current: u128,
    sqrt_price_target: u128,
    liquidity: u128,
    amount_specified_is_input: bool,
    a_to_b: bool,
) -> Result<u64, ErrorCode> {
    if a_to_b == amount_specified_is_input {
        amount_delta_a(sqrt_price_current, sqrt_price_target, liquidity, amount_specified_is_input)
    } else {
        amount_delta_b(sqrt_price_current, sqrt_price_target, liquidity, amount_specified_is_input)
    }
}

/// The amount of the other token between two prices, rounded the other way.
pub open spec fn amount_unfixed_delta(
    sqrt_price_current: u128,
    sqrt_price_target: u128,
    liquidity: u128,
    amount_specified_is_input: bool,
    a_to_b: bool,
) -> Result<u64, ErrorCode> {
    if a_to_b == amount_specified_is_input {
        amount_delta_b(sqrt_price_current, sqrt_price_target, liquidity, !amount_specified_is_input)
    } else {
        amount_delta_a(sqrt_price_current, sqrt_price_target, liquidity, !amount_specified_is_input)
    }
}

/// The part of the remaining amount that can move the price: all of an output, and of an
/// input what is left once the fee is taken from it, rounded down.
pub open spec fn amount_less_fee(
    amount_remaining: u64,
    fee_rate: u16,
    amount_specified_is_input: bool,
) -> int {
    if amount_specified_is_input {
        amount_remaining * (FEE_RATE_MUL_VALUE - fee_rate) / (FEE_RATE_MUL_VALUE as int)
    } else {
        amount_remaining as int
    }
}

/// The fee on `amount_in`: `amount_in * fee_rate / (1_000_000 - fee_rate)`, rounded up.
pub open spec fn fee_on(amount_in: u64, fee_rate: u16) -> int {
    div_round(amount_in * fee_rate, FEE_RATE_MUL_VALUE - fee_rate, true)
}

/// The price at which a step ends: the target where the amount suffices to reach it,
/// else the price to which the amount moves the current price.
pub open spec fn step_next_price(
    amount_remaining: u64,
    fee_rate: u16,
    liquidity: u128,
    sqrt_price_current: u128,
    sqrt_price_target: u128,
    amount_specified_is_input: bool,
    a_to_b: bool,
) -> Result<u128, ErrorCode> {
    let amount_calc = amount_less_fee(amount_remaining, fee_rate, amount_specified_is_input);
    match amount_fixed_delta(
        sqrt_price_current,
        sqrt_price_target,
        liquidity,
        amount_specified_is_input,
        a_to_b,
    ) {
        Err(e) => Err(e),
        Ok(full) => if amount_calc >= full {
            Ok(sqrt_price_target)
        } else {
            next_sqrt_price(
                sqrt_price_current,
                liquidity,
                amount_calc as u64,
                amount_specified_is_input,
                a_to_b,
            )
        },
    }
}

/// What `compute_swap` returns.
///
/// The step ends at `step_next_price`. Its two amounts are those between the current
/// price and that price, the input rounded up and the output rounded down; an output
/// that the trade fixes is held at the amount remaining. Where an input is fixed and
/// the target is not reached, the fee is whatever remains of the amount; else it is
/// `fee_on` the input.
pub open spec fn swap_step(
    amount_remaining: u64,
    fee_rate: u16,
    liquidity: u128,
    sqrt_price_current: u128,
    sqrt_price_target: u128,
    amount_specified_is_input: bool,
    a_to_b: bool,
) -> Result<SwapStepComputation, ErrorCode> {
    match step_next_price(
        amount_remaining,
        fee_rate,
        liquidity,
        sqrt_price_current,
        sqrt_price_target,
        amount_specified_is_input,
        a_to_b,
    ) {
        Err(e) => Err(e),
        Ok(next_price) => match amount_unfixed_delta(
            sqrt_price_current,
            next_price,
            liquidity,
            amount_specified_is_input,
            a_to_b,
        ) {
            Err(e) => Err(e),
            Ok(unfixed) => match amount_fixed_delta(
                sqrt_price_current,
                next_price,
                liquidity,
                amount_specified_is_input,
                a_to_b,
            ) {
                Err(e) => Err(e),
                Ok(fixed) => {
                    let amount_in = if amount_specified_is_input {
                        fixed
                    } else {
                        unfixed
                    };
                    let amount_out = if amount_specified_is_input {
                        unfixed
                    } else if fixed > amount_remaining {
                        amount_remaining
                    } else {
                        fixed
                    };
                    let fee_amount = if amount_specified_is_input && next_price
                        != sqrt_price_target {
                        (amount_remaining - amount_in) as u64
                    } else {
                        fee_on(amount_in, fee_rate) as u64
                    };
                    Ok(SwapStepComputation { amount_in, amount_out, next_price, fee_amount })
                },
            },
        },
    }
}

/// One step of a swap: trades as much of `amount_remaining` against `liquidity` as moves
/// the price from `sqrt_price_current` towards `sqrt_price_target` and not beyond it.
///
/// The fee is taken from an input before the price is moved. Fails where one of the
/// amounts or the new price cannot be computed, with the error of that computation.
pub fn compute_swap(
    amount_remaining: u64,
    fee_rate: u16,
    liquidity: u128,
    sqrt_price_current: u128,
    sqrt_price_target: u128,
    amount_specified_is_input: bool,
    a_to_b: bool,
) -> (r: Result<SwapStepComputation, ErrorCode>)
    ensures
        r == swap_step(
            amount_remaining,
            fee_rate,
            liquidity,
            sqrt_price_current,
            sqrt_price_target,
            amount_specified_is_input,
            a_to_b,
        ),
        r matches Ok(step) ==> amount_specified_is_input ==> step.amount_in + step.fee_amount
            <= amount_remaining,
        r matches Ok(step) ==> !amount_specified_is_input ==> step.amount_out <= amount_remaining,
        r matches Ok(step) ==> step.next_price != sqrt_price_target ==> (
        if amount_specified_is_input {
            step.amount_in + step.fee_amount == amount_remaining
        } else {
            step.amount_out == amount_remaining
        }),
{
    let mut amount_fixed_delta: u64 = get_amount_fixed_delta(
        sqrt_price_current,
        sqrt_price_target,
        liquidity,
        amount_specified_is_input,
        a_to_b,
    )?;

    let mut amount_calc: u64 = amount_remaining;
    if amount_specified_is_input {
        proof {
            lemma_amount_less_fee_bounded(amount_remaining, fee_rate);
        }
        amount_calc = match checked_mul_div(
            amount_remaining as u128,
            FEE_RATE_MUL_VALUE - fee_rate as u128,
            FEE_RATE_MUL_VALUE,
        ) {
            Ok(v) => v as u64,
            Err(e) => { return Err(e); },
        };
    }
    let next_sqrt_price: u128 = if amount_calc >= amount_fixed_delta {
        sqrt_price_target
    } else {
        get_next_sqrt_price(
            sqrt_price_current,
            liquidity,
            amount_calc,
            amount_specified_is_input,
            a_to_b,
        )?
    };

    let is_max_swap = next_sqrt_price == sqrt_price_target;

    let amount_unfixed_delta: u64 = get_amount_unfixed_delta(
        sqrt_price_current,
        next_sqrt_price,
        liquidity,
        amount_specified_is_input,
        a_to_b,
    )?;

    // Where the target is not reached, the fixed amount is that up to the price reached.
    if !is_max_swap {
        amount_fixed_delta = get_amount_fixed_delta(
            sqrt_price_current,
            next_sqrt_price,
            liquidity,
            amount_specified_is_input,
            a_to_b,
        )?;
    }
    let (amount_in, mut amount_out) = if amount_specified_is_input {
        (amount_fixed_delta, amount_unfixed_delta)
    } else {
        (amount_unfixed_delta, amount_fixed_delta)
    };

    if !amount_specified_is_input && amount_out > amount_remaining {
        amount_out = amount_remaining;
    }
    proof {
        lemma_fee_bounded(amount_in, fee_rate);
        lemma_step_within_amount(
            amount_remaining,
            fee_rate,
            liquidity,
            sqrt_price_current,
            sqrt_price_target,
            amount_specified_is_input,
            a_to_b,
        );
    }
    let fee_amount: u64 = if amount_specified_is_input && !is_max_swap {
        amount_remaining - amount_in
    } else {
        match checked_mul_div_round_up(
            amount_in as u128,
            fee_rate as u128,
            FEE_RATE_MUL_VALUE - fee_rate as u128,
        ) {
            Ok(v) => v as u64,
            Err(e) => { return Err(e); },
        }
    };

    Ok(SwapStepComputation { amount_in, amount_out, next_price: next_sqrt_price, fee_amount })
}

fn get_amount_fixed_delta(
    sqrt_price_current: u128,
    sqrt_price_target: u128,
    liquidity: u128,
    amount_specified_is_input: bool,
    a_to_b: bool,
) -> (r: Result<u64, ErrorCode>)
    ensures
        r == amount_fixed_delta(
            sqrt_price_current,
            sqrt_price_target,
            liquidity,
            amount_specified_is_input,
            a_to_b,
        ),
{
    if a_to_b == amount_specified_is_input {
        get_amount_delta_a(
            sqrt_price_current,
            sqrt_price_target,
            liquidity,
            amount_specified_is_input,
        )
    } else {
        get_amount_delta_b(
            sqrt_price_current,
            sqrt_price_target,
            liquidity,
            amount_specified_is_input,
        )
    }
}

fn get_amount_unfixed_delta(
    sqrt_price_current: u128,
    sqrt_price_target: u128,
    liquidity: u128,
    amount_specified_is_input: bool,
    a_to_b: bool,
) -> (r: Result<u64, ErrorCode>)
    ensures
        r == amount_unfixed_delta(
            sqrt_price_current,
            sqrt_price_target,
            liquidity,
            amount_specified_is_input,
            a_to_b,
        ),
{
    if a_to_b == amount_specified_is_input {
        get_amount_delta_b(
            sqrt_price_current,
            sqrt_price_target,
            liquidity,
            !amount_specified_is_input,
        )
    } else {
        get_amount_delta_a(
            sqrt_price_current,
            sqrt_price_target,
            liquidity,
            !amount_specified_is_input,
        )
    }
}

/// What is left of an amount once the fee is taken from it is no more than the amount.
pub proof fn lemma_amount_less_fee_bounded(amount_remaining: u64, fee_rate: u16)
    ensures
        0 <= amount_less_fee(amount_remaining, fee_rate, true) <= amount_remaining,
        div_round(
            amount_remaining * (FEE_RATE_MUL_VALUE - fee_rate),
            FEE_RATE_MUL_VALUE as int,
            false,
        ) == amount_less_fee(amount_remaining, fee_rate, true),
        (amount_remaining as u128) * ((FEE_RATE_MUL_VALUE - fee_rate) as u128) == amount_remaining
            * (FEE_RATE_MUL_VALUE - fee_rate),
{
    let keep: int = FEE_RATE_MUL_VALUE - fee_rate;
    assert(0 <= amount_remaining * keep <= amount_remaining * 1_000_000) by (nonlinear_arith)
        requires
            0 <= keep <= 1_000_000,
            amount_remaining >= 0,
    ;
}

/// The fee on an input fits into 64 bits.
pub proof fn lemma_fee_bounded(amount_in: u64, fee_rate: u16)
    ensures
        0 <= fee_on(amount_in, fee_rate) <= amount_in,
        (amount_in as u128) * (fee_rate as u128) == amount_in * fee_rate,
{
    let n: int = amount_in * fee_rate;
    let d: int = FEE_RATE_MUL_VALUE - fee_rate;
    assert(0 <= n <= amount_in * 65_535) by (nonlinear_arith)
        requires
            n == amount_in * fee_rate,
            0 <= fee_rate <= 65_535,
            amount_in >= 0,
    ;
    lemma_div_round_bounds(n, d, true);
    if amount_in > 0 {
        assert(div_round(n, d, true) * d < (amount_in + 1) * d) by (nonlinear_arith)
            requires
                div_round(n, d, true) * d < n + d,
                n <= amount_in * 65_535,
                d >= 934_465,
                amount_in >= 1,
        ;
        assert(div_round(n, d, true) < amount_in + 1) by (nonlinear_arith)
            requires
                div_round(n, d, true) * d < (amount_in + 1) * d,
                d > 0,
        ;
    } else {
        assert(n == 0);
    }
}

/// An input that leaves `amount_calc` once the fee is taken covers every smaller input
/// together with the fee on it.
pub proof fn lemma_fee_fits(amount_remaining: u64, amount_in: u64, fee_rate: u16)
    requires
        amount_in <= amount_less_fee(amount_remaining, fee_rate, true),
    ensures
        amount_in + fee_on(amount_in, fee_rate) <= amount_remaining,
{
    let keep: int = FEE_RATE_MUL_VALUE - fee_rate;
    let calc: int = amount_less_fee(amount_remaining, fee_rate, true);
    let fee: int = fee_on(amount_in, fee_rate);
    lemma_div_round_bounds(amount_remaining * keep, 1_000_000, false);
    assert(0 <= amount_in * fee_rate) by (nonlinear_arith)
        requires
            amount_in >= 0,
            fee_rate >= 0,
    ;
    lemma_div_round_bounds(amount_in * fee_rate, keep, true);
    // calc * 1_000_000 <= remaining * keep, and fee * keep < in * fee_rate + keep.
    assert((amount_in + fee) * keep < amount_remaining * keep + keep) by (nonlinear_arith)
        requires
            calc * 1_000_000 <= amount_remaining * keep,
            fee * keep < amount_in * fee_rate + keep,
            amount_in <= calc,
            keep + fee_rate == 1_000_000,
            amount_in >= 0,
            fee_rate >= 0,
            keep > 0,
    ;
    assert(amount_in + fee < amount_remaining + 1) by (nonlinear_arith)
        requires
            (amount_in + fee) * keep < amount_remaining * keep + keep,
            keep > 0,
    ;
}

/// A fixed input is never exceeded: the input that moves the price to where `amount`
/// moves it, rounded up, is at most `amount`.
pub proof fn lemma_input_never_exceeded(
    sqrt_price: u128,
    liquidity: u128,
    amount: u64,
    a_to_b: bool,
)
    ensures
        next_sqrt_price(sqrt_price, liquidity, amount, true, a_to_b) matches Ok(next)
            ==> amount_fixed_delta(sqrt_price, next, liquidity, true, a_to_b) matches Ok(used)
            ==> used <= amount,
{
    match next_sqrt_price(sqrt_price, liquidity, amount, true, a_to_b) {
        Ok(next) => {
            match amount_fixed_delta(sqrt_price, next, liquidity, true, a_to_b) {
                Ok(used) => {
                    if a_to_b {
                        lemma_input_a_never_exceeded(sqrt_price, liquidity, amount, next);
                    } else {
                        lemma_input_b_never_exceeded(sqrt_price, liquidity, amount, next);
                    }
                },
                Err(_) => {},
            }
        },
        Err(_) => {},
    }
}

proof fn lemma_input_b_never_exceeded(sqrt_price: u128, liquidity: u128, amount: u64, next: u128)
    requires
        next_sqrt_price_from_b(sqrt_price, liquidity, amount, true) == Ok::<u128, ErrorCode>(next),
    ensures
        amount_delta_b(sqrt_price, next, liquidity, true) matches Ok(used) ==> used <= amount,
{
    let delta = div_round(amount * pow2_64(), liquidity as int, false);
    lemma_div_round_bounds(amount * pow2_64(), liquidity as int, false);
    assert(next == sqrt_price + delta);
    let p = liquidity * (next - sqrt_price);
    assert(p == delta * liquidity) by (nonlinear_arith)
        requires
            p == liquidity * (next - sqrt_price),
            next - sqrt_price == delta,
    ;
    assert(p >= 0 && p <= amount * pow2_64());
    lemma_ceil_at_most(p, pow2_64(), amount as int);
    lemma_div_round_bounds(p, pow2_64(), false);
}

proof fn lemma_input_a_never_exceeded(sqrt_price: u128, liquidity: u128, amount: u64, next: u128)
    requires
        next_sqrt_price_from_a(sqrt_price, liquidity, amount, true) == Ok::<u128, ErrorCode>(next),
    ensures
        amount_delta_a(sqrt_price, next, liquidity, true) matches Ok(used) ==> used <= amount,
{
    if amount == 0 {
        assert(next == sqrt_price);
        assert(liquidity * (sqrt_price - sqrt_price) * pow2_64() == 0) by (nonlinear_arith);
        if sqrt_price != 0 {
            assert(sqrt_price * sqrt_price > 0) by (nonlinear_arith)
                requires
                    sqrt_price > 0,
            ;
            assert(0int / (sqrt_price * sqrt_price) == 0 && 0int % (sqrt_price * sqrt_price) == 0)
                by (nonlinear_arith)
                requires
                    sqrt_price * sqrt_price > 0,
            ;
        }
    } else {
        let n = liquidity * sqrt_price * pow2_64();
        let d = next_price_a_denominator(sqrt_price, liquidity, amount, true);
        assert(n >= 0 && d >= liquidity * pow2_64() && liquidity * pow2_64() >= 0) by (nonlinear_arith)
            requires
                n == liquidity * sqrt_price * pow2_64(),
                d == liquidity * pow2_64() + sqrt_price * amount,
                pow2_64() > 0,
        ;
        lemma_div_round_bounds(n, d, true);
        assert(next == div_round(n, d, true));
        assert(next * d >= n);
        // The new price does not exceed the old one.
        assert(sqrt_price * d >= n) by (nonlinear_arith)
            requires
                n == liquidity * sqrt_price * pow2_64(),
                d >= liquidity * pow2_64(),
                sqrt_price >= 0,
        ;
        lemma_ceil_at_most(n, d, sqrt_price as int);
        assert(next <= sqrt_price);
        assert(next >= MIN_SQRT_PRICE_X64);
        let x = liquidity * (sqrt_price - next) * pow2_64();
        let y = sqrt_price * next;
        assert(x <= amount * y && x >= 0 && y > 0) by (nonlinear_arith)
            requires
                x == liquidity * (sqrt_price - next) * pow2_64(),
                y == sqrt_price * next,
                next * d >= n,
                n == liquidity * sqrt_price * pow2_64(),
                d == liquidity * pow2_64() + sqrt_price * amount,
                0 < next <= sqrt_price,
                liquidity >= 0,
                amount >= 0,
        ;
        lemma_ceil_at_most(x, y, amount as int);
    }
}

/// A step that ends before its target uses up the amount: a fixed input together with
/// the fee is all that remained, and a fixed output is all that remained. And whatever
/// the step, a fixed input with its fee is covered by what remained.
pub proof fn lemma_step_within_amount(
    amount_remaining: u64,
    fee_rate: u16,
    liquidity: u128,
    sqrt_price_current: u128,
    sqrt_price_target: u128,
    amount_specified_is_input: bool,
    a_to_b: bool,
)
    ensures
        swap_step(
            amount_remaining,
            fee_rate,
            liquidity,
            sqrt_price_current,
            sqrt_price_target,
            amount_specified_is_input,
            a_to_b,
        ) matches Ok(step) ==> {
            &&& amount_specified_is_input ==> step.amount_in + step.fee_amount <= amount_remaining
            &&& !amount_specified_is_input ==> step.amount_out <= amount_remaining
            &&& step.next_price != sqrt_price_target ==> (if amount_specified_is_input {
                step.amount_in + step.fee_amount == amount_remaining
            } else {
                step.amount_out == amount_remaining
            })
        },
{
    let calc = amount_less_fee(amount_remaining, fee_rate, amount_specified_is_input);
    lemma_amount_less_fee_bounded(amount_remaining, fee_rate);
    match swap_step(
        amount_remaining,
        fee_rate,
        liquidity,
        sqrt_price_current,
        sqrt_price_target,
        amount_specified_is_input,
        a_to_b,
    ) {
        Ok(step) => {
            let full = amount_fixed_delta(
                sqrt_price_current,
                sqrt_price_target,
                liquidity,
                amount_specified_is_input,
                a_to_b,
            )->Ok_0;
            lemma_fee_bounded(step.amount_in, fee_rate);
            if amount_specified_is_input {
                if calc >= full {
                    lemma_fee_fits(amount_remaining, step.amount_in, fee_rate);
                } else {
                    lemma_input_never_exceeded(sqrt_price_current, liquidity, calc as u64, a_to_b);
                }
            } else if calc < full {
                lemma_output_never_undershot(sqrt_price_current, liquidity, calc as u64, a_to_b);
            }
        },
        Err(_) => {},
    }
}

/// A fixed output is never undershot: the output that moves the price to where `amount`
/// moves it, rounded down, is at least `amount`.
pub proof fn lemma_output_never_undershot(
    sqrt_price: u128,
    liquidity: u128,
    amount: u64,
    a_to_b: bool,
)
    ensures
        next_sqrt_price(sqrt_price, liquidity, amount, false, a_to_b) matches Ok(next)
            ==> amount_fixed_delta(sqrt_price, next, liquidity, false, a_to_b) matches Ok(given)
            ==> given >= amount,
{
    match next_sqrt_price(sqrt_price, liquidity, amount, false, a_to_b) {
        Ok(next) => {
            match amount_fixed_delta(sqrt_price, next, liquidity, false, a_to_b) {
                Ok(given) => {
                    if a_to_b {
                        lemma_output_b_never_undershot(sqrt_price, liquidity, amount, next);
                    } else {
                        lemma_output_a_never_undershot(sqrt_price, liquidity, amount, next);
                    }
                },
                Err(_) => {},
            }
        },
        Err(_) => {},
    }
}

proof fn lemma_output_b_never_undershot(sqrt_price: u128, liquidity: u128, amount: u64, next: u128)
    requires
        next_sqrt_price_from_b(sqrt_price, liquidity, amount, false) == Ok::<u128, ErrorCode>(next),
    ensures
        amount_delta_b(sqrt_price, next, liquidity, false) matches Ok(given) ==> given >= amount,
{
    let delta = div_round(amount * pow2_64(), liquidity as int, true);
    lemma_div_round_bounds(amount * pow2_64(), liquidity as int, true);
    assert(next == sqrt_price - delta);
    let p = liquidity * (sqrt_price - next);
    assert(p == delta * liquidity) by (nonlinear_arith)
        requires
            p == liquidity * (sqrt_price - next),
            sqrt_price - next == delta,
    ;
    assert(p >= amount * pow2_64());
    lemma_floor_at_least(p, pow2_64(), amount as int);
}

proof fn lemma_output_a_never_undershot(sqrt_price: u128, liquidity: u128, amount: u64, next: u128)
    requires
        next_sqrt_price_from_a(sqrt_price, liquidity, amount, false) == Ok::<u128, ErrorCode>(next),
        amount_delta_a(sqrt_price, next, liquidity, false) is Ok,
    ensures
        amount_delta_a(sqrt_price, next, liquidity, false) matches Ok(given) ==> given >= amount,
{
    if amount != 0 {
        let n = liquidity * sqrt_price * pow2_64();
        let d = next_price_a_denominator(sqrt_price, liquidity, amount, false);
        assert(sqrt_price > 0);
        assert(n >= 0 && 0 < d <= liquidity * pow2_64()) by (nonlinear_arith)
            requires
                n == liquidity * sqrt_price * pow2_64(),
                d == liquidity * pow2_64() - sqrt_price * amount,
                d > 0,
                pow2_64() > 0,
                sqrt_price >= 0,
                amount >= 0,
                liquidity >= 0,
        ;
        lemma_div_round_bounds(n, d, true);
        assert(next == div_round(n, d, true));
        assert(next * d >= n);
        // The new price is not below the old one.
        assert(next >= sqrt_price) by (nonlinear_arith)
            requires
                next * d >= n,
                n == liquidity * sqrt_price * pow2_64(),
                0 < d <= liquidity * pow2_64(),
                sqrt_price >= 0,
                next >= 0,
        ;
        let x = liquidity * (next - sqrt_price) * pow2_64();
        let y = next * sqrt_price;
        assert(x >= amount * y && y > 0) by (nonlinear_arith)
            requires
                x == liquidity * (next - sqrt_price) * pow2_64(),
                y == next * sqrt_price,
                next * d >= n,
                n == liquidity * sqrt_price * pow2_64(),
                d == liquidity * pow2_64() - sqrt_price * amount,
                0 < sqrt_price <= next,
                liquidity >= 0,
                amount >= 0,
        ;
        lemma_floor_at_least(x, y, amount as int);
    }
}

/// A step ends between the current price and its target: where the target lies on
/// the side of the current price to which the trade moves the price, the step does not
/// move the price the other way, and not beyond the target.
pub proof fn lemma_step_stays_within_target(
    amount_remaining: u64,
    fee_rate: u16,
    liquidity: u128,
    sqrt_price_current: u128,
    sqrt_price_target: u128,
    amount_specified_is_input: bool,
    a_to_b: bool,
)
    requires
        a_to_b ==> sqrt_price_target <= sqrt_price_current,
        !a_to_b ==> sqrt_price_current <= sqrt_price_target,
    ensures
        swap_step(
            amount_remaining,
            fee_rate,
            liquidity,
            sqrt_price_current,
            sqrt_price_target,
            amount_specified_is_input,
            a_to_b,
        ) matches Ok(step) ==> {
            &&& a_to_b ==> sqrt_price_target <= step.next_price <= sqrt_price_current
            &&& !a_to_b ==> sqrt_price_current <= step.next_price <= sqrt_price_target
        },
{
    let calc = amount_less_fee(amount_remaining, fee_rate, amount_specified_is_input);
    lemma_amount_less_fee_bounded(amount_remaining, fee_rate);
    match swap_step(
        amount_remaining,
        fee_rate,
        liquidity,
        sqrt_price_current,
        sqrt_price_target,
        amount_specified_is_input,
        a_to_b,
    ) {
        Ok(step) => {
            let full = amount_fixed_delta(
                sqrt_price_current,
                sqrt_price_target,
                liquidity,
                amount_specified_is_input,
                a_to_b,
            )->Ok_0;
            if calc < full {
                let next = step.next_price;
                if amount_specified_is_input {
                    lemma_input_never_exceeded(sqrt_price_current, liquidity, calc as u64, a_to_b);
                    if a_to_b {
                        lemma_price_from_a_moves(sqrt_price_current, liquidity, calc as u64, true);
                        if next < sqrt_price_target {
                            lemma_amount_delta_a_monotonic(
                                sqrt_price_current,
                                sqrt_price_target,
                                liquidity,
                                sqrt_price_current,
                                next,
                                liquidity,
                                true,
                            );
                        }
                    } else {
                        if next > sqrt_price_target {
                            lemma_amount_delta_b_monotonic(
                                sqrt_price_current,
                                sqrt_price_target,
                                liquidity,
                                sqrt_price_current,
                                next,
                                liquidity,
                                true,
                            );
                        }
                    }
                } else {
                    if a_to_b {
                        lemma_output_b_within_target(
                            sqrt_price_current,
                            sqrt_price_target,
                            liquidity,
                            calc as u64,
                        );
                    } else {
                        lemma_price_from_a_moves(sqrt_price_current, liquidity, calc as u64, false);
                        lemma_output_a_within_target(
                            sqrt_price_current,
                            sqrt_price_target,
                            liquidity,
                            calc as u64,
                        );
                    }
                }
            }
        },
        Err(_) => {},
    }
}

/// Token A paid in does not raise the price, and token A paid out does not lower it.
pub proof fn lemma_price_from_a_moves(
    sqrt_price: u128,
    liquidity: u128,
    amount: u64,
    amount_specified_is_input: bool,
)
    ensures
        next_sqrt_price_from_a(sqrt_price, liquidity, amount, amount_specified_is_input) matches Ok(
            next,
        ) ==> (if amount_specified_is_input {
            next <= sqrt_price
        } else {
            next >= sqrt_price
        }),
{
    if amount != 0 {
        match next_sqrt_price_from_a(sqrt_price, liquidity, amount, amount_specified_is_input) {
            Ok(next) => {
                let k = liquidity * pow2_64();
                let n = liquidity * sqrt_price * pow2_64();
                let d = next_price_a_denominator(
                    sqrt_price,
                    liquidity,
                    amount,
                    amount_specified_is_input,
                );
                assert(n == k * sqrt_price && k >= 0 && n >= 0 && sqrt_price * amount >= 0)
                    by (nonlinear_arith)
                    requires
                        n == liquidity * sqrt_price * pow2_64(),
                        k == liquidity * pow2_64(),
                        liquidity >= 0,
                        sqrt_price >= 0,
                        amount >= 0,
                        pow2_64() > 0,
                ;
                lemma_div_round_bounds(n, d, true);
                if amount_specified_is_input {
                    assert(n <= sqrt_price * d) by (nonlinear_arith)
                        requires
                            n == k * sqrt_price,
                            d >= k,
                            sqrt_price >= 0,
                    ;
                    lemma_ceil_at_most(n, d, sqrt_price as int);
                } else {
                    assert(next >= sqrt_price) by (nonlinear_arith)
                        requires
                            next * d >= n,
                            n == k * sqrt_price,
                            0 < d <= k,
                            sqrt_price >= 0,
                            next >= 0,
                    ;
                }
            },
            Err(_) => {},
        }
    }
}

/// Token B paid out, of which less is asked than lies between the current price and a
/// target below it, does not move the price below the target.
proof fn lemma_output_b_within_target(current: u128, target: u128, liquidity: u128, amount: u64)
    requires
        target <= current,
        amount_delta_b(current, target, liquidity, false) matches Ok(full) && amount < full,
    ensures
        next_sqrt_price_from_b(current, liquidity, amount, false) matches Ok(next) ==> target
            <= next <= current,
{
    if liquidity != 0 {
        let p = liquidity * (current - target);
        assert(p >= 0) by (nonlinear_arith)
            requires
                p == liquidity * (current - target),
                liquidity >= 0,
                current - target >= 0,
        ;
        lemma_div_round_bounds(p, pow2_64(), false);
        let paid = amount * pow2_64();
        assert(paid <= p);
        assert(paid <= (current - target) * liquidity) by (nonlinear_arith)
            requires
                paid <= p,
                p == liquidity * (current - target),
        ;
        lemma_ceil_at_most(paid, liquidity as int, current - target);
        lemma_div_round_bounds(paid, liquidity as int, true);
    }
}

/// Token A paid out, of which less is asked than lies between the current price and a
/// target above it, does not move the price above the target.
proof fn lemma_output_a_within_target(current: u128, target: u128, liquidity: u128, amount: u64)
    requires
        current <= target,
        amount_delta_a(current, target, liquidity, false) matches Ok(full) && amount < full,
    ensures
        next_sqrt_price_from_a(current, liquidity, amount, false) matches Ok(next) ==> next
            <= target,
{
    if amount != 0 {
        match next_sqrt_price_from_a(current, liquidity, amount, false) {
            Ok(next) => {
                let k = liquidity * pow2_64();
                let x = liquidity * (target - current) * pow2_64();
                let y = target * current;
                let n = liquidity * current * pow2_64();
                let d = next_price_a_denominator(current, liquidity, amount, false);
                assert(x == k * (target - current) && n == k * current && x >= 0 && n >= 0 && y
                    > 0) by (nonlinear_arith)
                    requires
                        x == liquidity * (target - current) * pow2_64(),
                        n == liquidity * current * pow2_64(),
                        k == liquidity * pow2_64(),
                        y == target * current,
                        liquidity >= 0,
                        0 < current <= target,
                        pow2_64() > 0,
                ;
                lemma_div_round_bounds(x, y, false);
                // amount * y <= x, so the numerator is at most target * denominator.
                assert(amount * y <= x) by (nonlinear_arith)
                    requires
                        (x / y) * y <= x,
                        amount < x / y,
                        y > 0,
                        amount >= 0,
                ;
                assert(target * d - n == x - amount * y) by (nonlinear_arith)
                    requires
                        d == k - current * amount,
                        n == k * current,
                        x == k * (target - current),
                        y == target * current,
                ;
                lemma_ceil_at_most(n, d, target as int);
            },
            Err(_) => {},
        }
    }
}

} // verus!
