use crate::errors::ErrorCode;
use crate::math::bit_math::{
    checked_mul_shift_right_round_up_if, div_round, div_round_up_if, div_round_up_if_u256,
    lemma_ceil_at_most, lemma_div_round_bounds, lemma_div_round_monotonic,
    lemma_mul_shift_right_monotonic, mul_shift_right, Q64_RESOLUTION,
};
use crate::math::tick_math::{MAX_SQRT_PRICE_X64, MIN_SQRT_PRICE_X64};
use crate::math::u256_math::{mul_u256, pow2_128, pow2_192, pow2_64, U256Muldiv};
use vstd::prelude::*;

verus! {

/// The largest fee rate, in hundredths of a basis point: one percent.
pub const MAX_FEE_RATE: u16 = 10_000;

/// The unit of a fee rate: a fee is `amount * fee_rate / 1_000_000`.
pub const FEE_RATE_MUL_VALUE: u128 = 1_000_000;

/// The largest protocol fee rate, in basis points: a quarter of the fee.
pub const MAX_PROTOCOL_FEE_RATE: u16 = 2_500;

/// The unit of a protocol fee rate: a protocol fee is `fee * protocol_fee_rate / 10_000`.
pub const PROTOCOL_FEE_RATE_MUL_VALUE: u128 = 10_000;

/// The smaller of two square-root prices.
pub open spec fn lower_price(sqrt_price_0: u128, sqrt_price_1: u128) -> u128 {
    if sqrt_price_0 > sqrt_price_1 {
        sqrt_price_1
    } else {
        sqrt_price_0
    }
}

/// The larger of two square-root prices.
pub open spec fn upper_price(sqrt_price_0: u128, sqrt_price_1: u128) -> u128 {
    if sqrt_price_0 > sqrt_price_1 {
        sqrt_price_0
    } else {
        sqrt_price_1
    }
}

/// The amount of token A that backs `liquidity` between two distinct positive square-root
/// prices `lower < upper`, before it is narrowed to 64 bits:
/// `liquidity * 2^64 * (upper - lower) / (upper * lower)`.
pub open spec fn amount_a_between(lower: int, upper: int, liquidity: int, round_up: bool) -> int {
    div_round(liquidity * (upper - lower) * pow2_64(), upper * lower, round_up)
}

/// What `get_amount_delta_a` returns.
pub open spec fn amount_delta_a(
    sqrt_price_0: u128,
    sqrt_price_1: u128,
    liquidity: u128,
    round_up: bool,
) -> Result<u64, ErrorCode> {
    let lower = lower_price(sqrt_price_0, sqrt_price_1);
    let upper = upper_price(sqrt_price_0, sqrt_price_1);
    if liquidity * (upper - lower) >= pow2_192() {
        Err(ErrorCode::MultiplicationOverflow)
    } else if lower == 0 {
        Err(ErrorCode::DivideByZero)
    } else if amount_a_between(lower as int, upper as int, liquidity as int, round_up) > u64::MAX {
        Err(ErrorCode::TokenMaxExceeded)
    } else {
        Ok(amount_a_between(lower as int, upper as int, liquidity as int, round_up) as u64)
    }
}

/// The amount of token A that backs `liquidity` between two square-root prices, given in
/// either order, rounded as asked.
///
/// Fails with `MultiplicationOverflow` when `liquidity * (upper - lower)` reaches `2^192`,
/// with `DivideByZero` when the lower price is zero, and with `TokenMaxExceeded` when the
/// amount exceeds 64 bits.
pub fn get_amount_delta_a(
    sqrt_price_0: u128,
    sqrt_price_1: u128,
    liquidity: u128,
    round_up: bool,
) -> (r: Result<u64, ErrorCode>)
    ensures
        r == amount_delta_a(sqrt_price_0, sqrt_price_1, liquidity, round_up),
{
    let (sqrt_price_lower, sqrt_price_upper) = increasing_price_order(sqrt_price_0, sqrt_price_1);
    let sqrt_price_diff: u128 = sqrt_price_upper - sqrt_price_lower;

    let numerator = match mul_u256(liquidity, sqrt_price_diff).checked_shift_word_left() {
        Some(n) => n,
        None => { return Err(ErrorCode::MultiplicationOverflow); },
    };
    let denominator = mul_u256(sqrt_price_upper, sqrt_price_lower);
    if denominator.is_zero() {
        proof {
            if sqrt_price_lower != 0 {
                assert(sqrt_price_upper * sqrt_price_lower > 0) by (nonlinear_arith)
                    requires
                        sqrt_price_upper >= sqrt_price_lower > 0,
                ;
            }
        }
        return Err(ErrorCode::DivideByZero);
    }
    proof {
        if sqrt_price_lower == 0 {
            assert(sqrt_price_upper * sqrt_price_lower == 0) by (nonlinear_arith)
                requires
                    sqrt_price_lower == 0,
            ;
        }
    }
    match div_round_up_if_u256(numerator, denominator, round_up) {
        Ok(result) => {
            if result > u64::MAX as u128 {
                Err(ErrorCode::TokenMaxExceeded)
            } else {
                Ok(result as u64)
            }
        },
        Err(_) => Err(ErrorCode::TokenMaxExceeded),
    }
}

/// What `get_amount_delta_b` returns: `liquidity * (upper - lower)`, shifted right by 64.
pub open spec fn amount_delta_b(
    sqrt_price_0: u128,
    sqrt_price_1: u128,
    liquidity: u128,
    round_up: bool,
) -> Result<u64, ErrorCode> {
    mul_shift_right(
        liquidity,
        (upper_price(sqrt_price_0, sqrt_price_1) - lower_price(sqrt_price_0, sqrt_price_1)) as u128,
        round_up,
    )
}

/// The amount of token B that backs `liquidity` between two square-root prices, given in
/// either order, rounded as asked.
pub fn get_amount_delta_b(
    sqrt_price_0: u128,
    sqrt_price_1: u128,
    liquidity: u128,
    round_up: bool,
) -> (r: Result<u64, ErrorCode>)
    ensures
        r == amount_delta_b(sqrt_price_0, sqrt_price_1, liquidity, round_up),
{
    let (price_lower, price_upper) = increasing_price_order(sqrt_price_0, sqrt_price_1);
    checked_mul_shift_right_round_up_if(liquidity, price_upper - price_lower, round_up)
}

/// The two prices, the smaller first.
pub fn increasing_price_order(sqrt_price_0: u128, sqrt_price_1: u128) -> (r: (u128, u128))
    ensures
        r.0 == lower_price(sqrt_price_0, sqrt_price_1),
        r.1 == upper_price(sqrt_price_0, sqrt_price_1),
{
    if sqrt_price_0 > sqrt_price_1 {
        (sqrt_price_1, sqrt_price_0)
    } else {
        (sqrt_price_0, sqrt_price_1)
    }
}

/// The denominator of the price update that fixes token A:
/// `liquidity * 2^64 + amount * sqrt_price` for an input, and with `-` for an output.
pub open spec fn next_price_a_denominator(
    sqrt_price: u128,
    liquidity: u128,
    amount: u64,
    amount_specified_is_input: bool,
) -> int {
    if amount_specified_is_input {
        liquidity * pow2_64() + sqrt_price * amount
    } else {
        liquidity * pow2_64() - sqrt_price * amount
    }
}

/// The price update that fixes token A, before its range is checked:
/// `liquidity * sqrt_price * 2^64 / denominator`, rounded up.
pub open spec fn next_price_a_quotient(
    sqrt_price: u128,
    liquidity: u128,
    amount: u64,
    amount_specified_is_input: bool,
) -> int {
    div_round(
        liquidity * sqrt_price * pow2_64(),
        next_price_a_denominator(sqrt_price, liquidity, amount, amount_specified_is_input),
        true,
    )
}

/// What `get_next_sqrt_price_from_a_round_up` returns.
pub open spec fn next_sqrt_price_from_a(
    sqrt_price: u128,
    liquidity: u128,
    amount: u64,
    amount_specified_is_input: bool,
) -> Result<u128, ErrorCode> {
    let price = next_price_a_quotient(sqrt_price, liquidity, amount, amount_specified_is_input);
    if amount == 0 {
        Ok(sqrt_price)
    } else if liquidity * sqrt_price >= pow2_192() {
        Err(ErrorCode::MultiplicationOverflow)
    } else if next_price_a_denominator(sqrt_price, liquidity, amount, amount_specified_is_input)
        <= 0 {
        Err(ErrorCode::DivideByZero)
    } else if price < MIN_SQRT_PRICE_X64 {
        Err(ErrorCode::TokenMinSubceeded)
    } else if price > MAX_SQRT_PRICE_X64 {
        Err(ErrorCode::TokenMaxExceeded)
    } else {
        Ok(price as u128)
    }
}

/// The square-root price after `amount` of token A has been added to the pool
/// (an input) or taken from it (an output), rounded up.
///
/// A zero amount leaves the price as it is. Otherwise the call fails with
/// `MultiplicationOverflow` when `liquidity * sqrt_price` reaches `2^192`, with
/// `DivideByZero` when the denominator is not positive, and with `TokenMinSubceeded` or
/// `TokenMaxExceeded` when the new price leaves the supported range.
pub fn get_next_sqrt_price_from_a_round_up(
    sqrt_price: u128,
    liquidity: u128,
    amount: u64,
    amount_specified_is_input: bool,
) -> (r: Result<u128, ErrorCode>)
    ensures
        r == next_sqrt_price_from_a(sqrt_price, liquidity, amount, amount_specified_is_input),
{
    if amount == 0 {
        return Ok(sqrt_price);
    }
    let product = mul_u256(sqrt_price, amount as u128);

    let numerator = match mul_u256(liquidity, sqrt_price).checked_shift_word_left() {
        Some(n) => n,
        None => { return Err(ErrorCode::MultiplicationOverflow); },
    };

    let liquidity_shift_left = U256Muldiv::new(0, liquidity).shift_word_left();
    if !amount_specified_is_input && liquidity_shift_left.lte(product) {
        return Err(ErrorCode::DivideByZero);
    }
    proof {
        assert(sqrt_price * amount < pow2_192()) by (nonlinear_arith)
            requires
                0 <= sqrt_price < pow2_128(),
                0 <= amount < pow2_64(),
                pow2_192() == pow2_128() * pow2_64(),
        ;
    }
    let denominator = if amount_specified_is_input {
        liquidity_shift_left.add(product)
    } else {
        liquidity_shift_left.sub(product)
    };

    let price: u128 = match div_round_up_if_u256(numerator, denominator, true) {
        Ok(price) => price,
        Err(ErrorCode::DivideByZero) => { return Err(ErrorCode::DivideByZero); },
        Err(_) => { return Err(ErrorCode::TokenMaxExceeded); },
    };
    if price < MIN_SQRT_PRICE_X64 {
        return Err(ErrorCode::TokenMinSubceeded);
    } else if price > MAX_SQRT_PRICE_X64 {
        return Err(ErrorCode::TokenMaxExceeded);
    }
    Ok(price)
}

/// What `get_next_sqrt_price_from_b_round_down` returns.
pub open spec fn next_sqrt_price_from_b(
    sqrt_price: u128,
    liquidity: u128,
    amount: u64,
    amount_specified_is_input: bool,
) -> Result<u128, ErrorCode> {
    let delta = div_round(amount * pow2_64(), liquidity as int, !amount_specified_is_input);
    if liquidity == 0 {
        Err(ErrorCode::DivideByZero)
    } else if amount_specified_is_input {
        if sqrt_price + delta > u128::MAX {
            Err(ErrorCode::SqrtPriceOutOfBounds)
        } else {
            Ok((sqrt_price + delta) as u128)
        }
    } else {
        if sqrt_price - delta < 0 {
            Err(ErrorCode::SqrtPriceOutOfBounds)
        } else {
            Ok((sqrt_price - delta) as u128)
        }
    }
}

/// The square-root price after `amount` of token B has been added to the pool
/// (an input) or taken from it (an output), rounded down: the price moves by
/// `amount * 2^64 / liquidity`, rounded down for an input and up for an output.
///
/// Fails with `DivideByZero` on zero liquidity and with `SqrtPriceOutOfBounds` when the
/// new price leaves the 128 bits.
pub fn get_next_sqrt_price_from_b_round_down(
    sqrt_price: u128,
    liquidity: u128,
    amount: u64,
    amount_specified_is_input: bool,
) -> (r: Result<u128, ErrorCode>)
    ensures
        r == next_sqrt_price_from_b(sqrt_price, liquidity, amount, amount_specified_is_input),
{
    assert((amount as u128) << 64 == (amount as u128) * 0x1_0000_0000_0000_0000) by (bit_vector);
    let amount_x64: u128 = (amount as u128) << Q64_RESOLUTION;

    let delta: u128 = match div_round_up_if(amount_x64, liquidity, !amount_specified_is_input) {
        Ok(delta) => delta,
        Err(e) => { return Err(ErrorCode::DivideByZero); },
    };

    if amount_specified_is_input {
        match sqrt_price.checked_add(delta) {
            Some(p) => Ok(p),
            None => Err(ErrorCode::SqrtPriceOutOfBounds),
        }
    } else {
        match sqrt_price.checked_sub(delta) {
            Some(p) => Ok(p),
            None => Err(ErrorCode::SqrtPriceOutOfBounds),
        }
    }
}

/// What `get_next_sqrt_price` returns: token A is fixed where the amount is an input of
/// a trade from A to B or an output of a trade from B to A, token B otherwise.
pub open spec fn next_sqrt_price(
    sqrt_price: u128,
    liquidity: u128,
    amount: u64,
    amount_specified_is_input: bool,
    a_to_b: bool,
) -> Result<u128, ErrorCode> {
    if amount_specified_is_input == a_to_b {
        next_sqrt_price_from_a(sqrt_price, liquidity, amount, amount_specified_is_input)
    } else {
        next_sqrt_price_from_b(sqrt_price, liquidity, amount, amount_specified_is_input)
    }
}

/// The square-root price after a trade of `amount` against `liquidity`.
pub fn get_next_sqrt_price(
    sqrt_price: u128,
    liquidity: u128,
    amount: u64,
    amount_specified_is_input: bool,
    a_to_b: bool,
) -> (r: Result<u128, ErrorCode>)
    ensures
        r == next_sqrt_price(sqrt_price, liquidity, amount, amount_specified_is_input, a_to_b),
{
    if amount_specified_is_input == a_to_b {
        // Token A is fixed: the price is rounded up, so that an input never exceeds the
        // amount given and an output never falls below the amount asked for.
        get_next_sqrt_price_from_a_round_up(
            sqrt_price,
            liquidity,
            amount,
            amount_specified_is_input,
        )
    } else {
        // Token B is fixed: the price is rounded down, for the same two reasons.
        get_next_sqrt_price_from_b_round_down(
            sqrt_price,
            liquidity,
            amount,
            amount_specified_is_input,
        )
    }
}

/// The amount of token B grows with the liquidity and with the distance between the
/// two prices: where it can be computed for some liquidity and two prices, it can be
/// computed for any smaller liquidity and any two prices that are no further apart,
/// and is then no greater.
pub proof fn lemma_amount_delta_b_monotonic(
    sqrt_price_0: u128,
    sqrt_price_1: u128,
    liquidity: u128,
    wider_price_0: u128,
    wider_price_1: u128,
    greater_liquidity: u128,
    round_up: bool,
)
    requires
        liquidity <= greater_liquidity,
        upper_price(sqrt_price_0, sqrt_price_1) - lower_price(sqrt_price_0, sqrt_price_1)
            <= upper_price(wider_price_0, wider_price_1) - lower_price(
            wider_price_0,
            wider_price_1,
        ),
    ensures
        amount_delta_b(wider_price_0, wider_price_1, greater_liquidity, round_up) matches Ok(
            greater,
        ) ==> (amount_delta_b(sqrt_price_0, sqrt_price_1, liquidity, round_up) matches Ok(smaller)
            && smaller <= greater),
{
    lemma_mul_shift_right_monotonic(
        liquidity,
        (upper_price(sqrt_price_0, sqrt_price_1) - lower_price(sqrt_price_0, sqrt_price_1)) as u128,
        greater_liquidity,
        (upper_price(wider_price_0, wider_price_1) - lower_price(
            wider_price_0,
            wider_price_1,
        )) as u128,
        round_up,
    );
}

/// The amount of token A grows with the liquidity and with the range of prices: where it
/// can be computed for some liquidity and a range of prices, it can be computed for any
/// smaller liquidity and any range within that range, and is then no greater.
pub proof fn lemma_amount_delta_a_monotonic(
    sqrt_price_0: u128,
    sqrt_price_1: u128,
    liquidity: u128,
    wider_price_0: u128,
    wider_price_1: u128,
    greater_liquidity: u128,
    round_up: bool,
)
    requires
        liquidity <= greater_liquidity,
        lower_price(wider_price_0, wider_price_1) <= lower_price(sqrt_price_0, sqrt_price_1),
        upper_price(sqrt_price_0, sqrt_price_1) <= upper_price(wider_price_0, wider_price_1),
    ensures
        amount_delta_a(wider_price_0, wider_price_1, greater_liquidity, round_up) matches Ok(
            greater,
        ) ==> (amount_delta_a(sqrt_price_0, sqrt_price_1, liquidity, round_up) matches Ok(smaller)
            && smaller <= greater),
{
    let l1 = lower_price(sqrt_price_0, sqrt_price_1) as int;
    let h1 = upper_price(sqrt_price_0, sqrt_price_1) as int;
    let l2 = lower_price(wider_price_0, wider_price_1) as int;
    let h2 = upper_price(wider_price_0, wider_price_1) as int;
    if amount_delta_a(wider_price_0, wider_price_1, greater_liquidity, round_up) is Ok {
        lemma_amount_a_between_monotonic(
            l1,
            h1,
            liquidity as int,
            l2,
            h2,
            greater_liquidity as int,
            round_up,
        );
        assert(liquidity * (h1 - l1) <= greater_liquidity * (h2 - l2)) by (nonlinear_arith)
            requires
                0 <= liquidity <= greater_liquidity,
                0 <= h1 - l1 <= h2 - l2,
        ;
    }
}

/// The amount of token A, before it is narrowed, grows with the liquidity and with the
/// range of prices.
pub proof fn lemma_amount_a_between_monotonic(
    l1: int,
    h1: int,
    liquidity: int,
    l2: int,
    h2: int,
    greater_liquidity: int,
    round_up: bool,
)
    requires
        0 < l2 <= l1 <= h1 <= h2,
        0 <= liquidity <= greater_liquidity,
    ensures
        0 <= amount_a_between(l1, h1, liquidity, round_up) <= amount_a_between(
            l2,
            h2,
            greater_liquidity,
            round_up,
        ),
{
    // (h1 - l1) / (h1 * l1) <= (h2 - l2) / (h2 * l2), cross-multiplied.
    let a = (h1 - l1) * (h2 * l2);
    let b = (h2 - l2) * (h1 * l1);
    let x = h1 * h2;
    let y = l1 * l2;
    assert(h1 * (h2 * l2) == x * l2 && h2 * (h1 * l1) == x * l1) by (nonlinear_arith)
        requires
            x == h1 * h2,
    ;
    assert(l1 * (h2 * l2) == y * h2 && l2 * (h1 * l1) == y * h1) by (nonlinear_arith)
        requires
            y == l1 * l2,
    ;
    assert(a == h1 * (h2 * l2) - l1 * (h2 * l2)) by (nonlinear_arith)
        requires
            a == (h1 - l1) * (h2 * l2),
    ;
    assert(b == h2 * (h1 * l1) - l2 * (h1 * l1)) by (nonlinear_arith)
        requires
            b == (h2 - l2) * (h1 * l1),
    ;
    assert(x * (l1 - l2) == x * l1 - x * l2 && y * (h2 - h1) == y * h2 - y * h1)
        by (nonlinear_arith);
    assert(b - a == (h1 * h2) * (l1 - l2) + (l1 * l2) * (h2 - h1));
    assert((h1 * h2) * (l1 - l2) >= 0 && (l1 * l2) * (h2 - h1) >= 0 && h1 * l1 > 0 && h2 * l2 > 0
        && a >= 0 && b >= 0) by (nonlinear_arith)
        requires
            0 < l2 <= l1 <= h1 <= h2,
            a == (h1 - l1) * (h2 * l2),
            b == (h2 - l2) * (h1 * l1),
    ;
    let k1 = liquidity * pow2_64();
    let k2 = greater_liquidity * pow2_64();
    let n1 = liquidity * (h1 - l1) * pow2_64();
    let n2 = greater_liquidity * (h2 - l2) * pow2_64();
    assert(n1 == k1 * (h1 - l1) && n2 == k2 * (h2 - l2) && 0 <= k1 <= k2) by (nonlinear_arith)
        requires
            n1 == liquidity * (h1 - l1) * pow2_64(),
            n2 == greater_liquidity * (h2 - l2) * pow2_64(),
            k1 == liquidity * pow2_64(),
            k2 == greater_liquidity * pow2_64(),
            0 <= liquidity <= greater_liquidity,
            pow2_64() > 0,
    ;
    assert(n1 * (h2 * l2) == k1 * a && n2 * (h1 * l1) == k2 * b) by (nonlinear_arith)
        requires
            n1 == k1 * (h1 - l1),
            n2 == k2 * (h2 - l2),
            a == (h1 - l1) * (h2 * l2),
            b == (h2 - l2) * (h1 * l1),
    ;
    assert(k1 * a <= k2 * b && n1 >= 0 && n2 >= 0) by (nonlinear_arith)
        requires
            0 <= k1 <= k2,
            0 <= a <= b,
            n1 == k1 * (h1 - l1),
            n2 == k2 * (h2 - l2),
            h1 - l1 >= 0,
            h2 - l2 >= 0,
    ;
    lemma_div_round_monotonic(n1, h1 * l1, n2, h2 * l2, round_up);
    lemma_div_round_bounds(n1, h1 * l1, round_up);
}

/// Token B paid in leads back to the price it was computed for. The amount that backs
/// `liquidity` from `lower` up to `upper`, rounded up and paid in at `lower`, moves the
/// price to `upper` or beyond it, and beyond it by less than `2^64 / liquidity`: with a
/// liquidity of `2^64` or more, to `upper` itself.
pub proof fn lemma_amount_b_paid_in_leads_back(
    lower: u128,
    upper: u128,
    liquidity: u128,
    amount: u64,
    next: u128,
)
    requires
        lower <= upper,
        amount_delta_b(lower, upper, liquidity, true) == Ok::<u64, ErrorCode>(amount),
        next_sqrt_price_from_b(lower, liquidity, amount, true) == Ok::<u128, ErrorCode>(next),
    ensures
        upper <= next,
        (next - upper) * liquidity < pow2_64(),
        liquidity >= pow2_64() ==> next == upper,
{
    let d = upper - lower;
    let p = liquidity * d;
    assert(p >= 0) by (nonlinear_arith)
        requires
            p == liquidity * d,
            d >= 0,
    ;
    lemma_div_round_bounds(p, pow2_64(), true);
    let paid = amount * pow2_64();
    assert(p <= paid < p + pow2_64());
    lemma_div_round_bounds(paid, liquidity as int, false);
    let moved = div_round(paid, liquidity as int, false);
    assert(moved == paid / (liquidity as int));
    assert(moved >= d && (moved - d) * liquidity < pow2_64()) by (nonlinear_arith)
        requires
            moved * liquidity <= paid < moved * liquidity + liquidity,
            p == liquidity * d,
            p <= paid < p + pow2_64(),
            liquidity > 0,
    ;
    assert(next == lower + moved);
    if liquidity >= pow2_64() {
        assert(next - upper < 1) by (nonlinear_arith)
            requires
                (next - upper) * liquidity < pow2_64(),
                liquidity >= pow2_64(),
                next - upper >= 0,
        ;
    }
}

/// Token B paid out leads back to the price it was computed for. The amount that backs
/// `liquidity` from `lower` up to `upper`, rounded down and paid out at `upper`, moves
/// the price to `lower` or short of it, and short of it by less than `2^64 / liquidity`:
/// with a liquidity of `2^64` or more, to `lower` itself.
pub proof fn lemma_amount_b_paid_out_leads_back(
    lower: u128,
    upper: u128,
    liquidity: u128,
    amount: u64,
    next: u128,
)
    requires
        lower <= upper,
        amount_delta_b(lower, upper, liquidity, false) == Ok::<u64, ErrorCode>(amount),
        next_sqrt_price_from_b(upper, liquidity, amount, false) == Ok::<u128, ErrorCode>(next),
    ensures
        lower <= next,
        (next - lower) * liquidity < pow2_64(),
        liquidity >= pow2_64() ==> next == lower,
{
    let d = upper - lower;
    let p = liquidity * d;
    assert(p >= 0) by (nonlinear_arith)
        requires
            p == liquidity * d,
            d >= 0,
    ;
    lemma_div_round_bounds(p, pow2_64(), false);
    let paid = amount * pow2_64();
    assert(paid <= p < paid + pow2_64());
    lemma_div_round_bounds(paid, liquidity as int, true);
    let moved = div_round(paid, liquidity as int, true);
    assert(moved <= d && (d - moved) * liquidity < pow2_64()) by (nonlinear_arith)
        requires
            paid <= moved * liquidity < paid + liquidity,
            p == liquidity * d,
            paid <= p < paid + pow2_64(),
            liquidity > 0,
    ;
    assert(next == upper - moved);
    if liquidity >= pow2_64() {
        assert(next - lower < 1) by (nonlinear_arith)
            requires
                (next - lower) * liquidity < pow2_64(),
                liquidity >= pow2_64(),
                next - lower >= 0,
        ;
    }
}

/// Token A paid in leads back to the price it was computed for. The amount that backs
/// `liquidity` from `lower` up to `upper`, rounded up and paid in at `upper`, moves the
/// price to `lower` or beyond it, and beyond it by less than `upper * lower` over the
/// denominator of the price update: where that denominator is at least
/// `upper * lower`, to `lower` itself.
pub proof fn lemma_amount_a_paid_in_leads_back(
    lower: u128,
    upper: u128,
    liquidity: u128,
    amount: u64,
    next: u128,
)
    requires
        lower <= upper,
        liquidity > 0,
        amount_delta_a(lower, upper, liquidity, true) == Ok::<u64, ErrorCode>(amount),
        next_sqrt_price_from_a(upper, liquidity, amount, true) == Ok::<u128, ErrorCode>(next),
    ensures
        next <= lower,
        (lower - next) * next_price_a_denominator(upper, liquidity, amount, true) < upper * lower,
        upper * lower <= next_price_a_denominator(upper, liquidity, amount, true) ==> next
            == lower,
{
    let d = upper - lower;
    let k = liquidity * pow2_64();
    let x = liquidity * d * pow2_64();
    let y = upper * lower;
    let den = next_price_a_denominator(upper, liquidity, amount, true);
    assert(x == k * d && x >= 0 && y > 0 && k > 0) by (nonlinear_arith)
        requires
            x == liquidity * d * pow2_64(),
            k == liquidity * pow2_64(),
            y == upper * lower,
            d >= 0,
            liquidity > 0,
            0 < lower <= upper,
            pow2_64() > 0,
    ;
    lemma_div_round_bounds(x, y, true);
    assert(x <= amount * y < x + y);
    assert(den >= k) by (nonlinear_arith)
        requires
            den == k + upper * amount,
            upper >= 0,
            amount >= 0,
    ;
    if amount == 0 {
        assert(d == 0) by (nonlinear_arith)
            requires
                k * d <= 0,
                k > 0,
                d >= 0,
        ;
        assert((lower - next) * den == 0) by (nonlinear_arith)
            requires
                lower - next == 0,
        ;
    } else {
        let n = liquidity * upper * pow2_64();
        assert(n == k * upper && n >= 0) by (nonlinear_arith)
            requires
                n == liquidity * upper * pow2_64(),
                k == liquidity * pow2_64(),
                k > 0,
                upper >= 0,
        ;
        lemma_div_round_bounds(n, den, true);
        assert(next == div_round(n, den, true));
        // lower * den - n == amount * y - x
        assert(lower * den - n == amount * y - x) by (nonlinear_arith)
            requires
                den == k + upper * amount,
                n == k * upper,
                x == k * d,
                d == upper - lower,
                y == upper * lower,
        ;
        lemma_ceil_at_most(n, den, lower as int);
        assert((lower - next) * den < y) by (nonlinear_arith)
            requires
                next * den >= n,
                lower * den - n < y,
        ;
    }
    if y <= den {
        assert(lower - next < 1) by (nonlinear_arith)
            requires
                (lower - next) * den < y,
                0 < y <= den,
                lower - next >= 0,
        ;
    }
}

/// Token A paid out leads back to the price it was computed for. The amount that backs
/// `liquidity` from `lower` up to `upper`, rounded down and paid out at `lower`, moves
/// the price to `upper` or short of it, and short of it by less than `upper * lower`
/// over the denominator of the price update: where that denominator is at least
/// `upper * lower`, to `upper` itself.
pub proof fn lemma_amount_a_paid_out_leads_back(
    lower: u128,
    upper: u128,
    liquidity: u128,
    amount: u64,
    next: u128,
)
    requires
        lower <= upper,
        liquidity > 0,
        amount_delta_a(lower, upper, liquidity, false) == Ok::<u64, ErrorCode>(amount),
        next_sqrt_price_from_a(lower, liquidity, amount, false) == Ok::<u128, ErrorCode>(next),
    ensures
        next <= upper,
        (upper - next) * next_price_a_denominator(lower, liquidity, amount, false) < upper
            * lower,
        upper * lower <= next_price_a_denominator(lower, liquidity, amount, false) ==> next
            == upper,
{
    let d = upper - lower;
    let k = liquidity * pow2_64();
    let x = liquidity * d * pow2_64();
    let y = upper * lower;
    let den = next_price_a_denominator(lower, liquidity, amount, false);
    assert(x == k * d && x >= 0 && y > 0 && k > 0) by (nonlinear_arith)
        requires
            x == liquidity * d * pow2_64(),
            k == liquidity * pow2_64(),
            y == upper * lower,
            d >= 0,
            liquidity > 0,
            0 < lower <= upper,
            pow2_64() > 0,
    ;
    lemma_div_round_bounds(x, y, false);
    assert(amount * y <= x < amount * y + y);
    let n = liquidity * lower * pow2_64();
    assert(n == k * lower && n >= 0) by (nonlinear_arith)
        requires
            n == liquidity * lower * pow2_64(),
            k == liquidity * pow2_64(),
            k > 0,
            lower >= 0,
    ;
    // upper * den - n == x - amount * y
    assert(upper * den - n == x - amount * y) by (nonlinear_arith)
        requires
            den == k - lower * amount,
            n == k * lower,
            x == k * d,
            d == upper - lower,
            y == upper * lower,
    ;
    if amount == 0 {
        assert(den == k);
        assert((upper - next) * den == upper * den - n) by (nonlinear_arith)
            requires
                next == lower,
                n == k * lower,
                den == k,
        ;
    } else {
        assert(den > 0);
        lemma_div_round_bounds(n, den, true);
        assert(next == div_round(n, den, true));
        lemma_ceil_at_most(n, den, upper as int);
        assert((upper - next) * den < y) by (nonlinear_arith)
            requires
                next * den >= n,
                upper * den - n < y,
        ;
    }
    if y <= den {
        assert(upper - next < 1) by (nonlinear_arith)
            requires
                (upper - next) * den < y,
                0 < y <= den,
                upper - next >= 0,
        ;
    }
}

} // verus!
