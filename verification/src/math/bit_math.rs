use crate::errors::ErrorCode;
use crate::math::u256_math::{mul_u256, pow2_128, pow2_64, U256Muldiv};
use vstd::prelude::*;

verus! {

/// The number of fractional bits of a Q64.64 fixed-point number.
pub const Q64_RESOLUTION: u8 = 64;

/// One, as a Q64.64 fixed-point number.
pub const TO_Q64: u128 = 0x1_0000_0000_0000_0000;

const Q64_MASK: u128 = 0xFFFF_FFFF_FFFF_FFFF;

/// The quotient `n / d` for `d > 0`, rounded down, or rounded up on request.
pub open spec fn div_round(n: int, d: int, round_up: bool) -> int {
    if round_up && n % d != 0 {
        n / d + 1
    } else {
        n / d
    }
}

/// `n0 * n1 / d`, rounded down.
pub fn checked_mul_div(n0: u128, n1: u128, d: u128) -> (r: Result<u128, ErrorCode>)
    ensures
        d == 0 ==> r == Err::<u128, ErrorCode>(ErrorCode::DivideByZero),
        d != 0 && div_round(n0 * n1, d as int, false) > u128::MAX ==> r == Err::<u128, ErrorCode>(
            ErrorCode::MulDivOverflow,
        ),
        d != 0 && div_round(n0 * n1, d as int, false) <= u128::MAX ==> r == Ok::<u128, ErrorCode>(
            div_round(n0 * n1, d as int, false) as u128,
        ),
{
    checked_mul_div_round_up_if(n0, n1, d, false)
}

/// `n0 * n1 / d`, rounded up.
pub fn checked_mul_div_round_up(n0: u128, n1: u128, d: u128) -> (r: Result<u128, ErrorCode>)
    ensures
        d == 0 ==> r == Err::<u128, ErrorCode>(ErrorCode::DivideByZero),
        d != 0 && div_round(n0 * n1, d as int, true) > u128::MAX ==> r == Err::<u128, ErrorCode>(
            ErrorCode::MulDivOverflow,
        ),
        d != 0 && div_round(n0 * n1, d as int, true) <= u128::MAX ==> r == Ok::<u128, ErrorCode>(
            div_round(n0 * n1, d as int, true) as u128,
        ),
{
    checked_mul_div_round_up_if(n0, n1, d, true)
}

/// `n0 * n1 / d` over the exact 256-bit product, rounded as asked.
///
/// Fails on a zero divisor, and when the rounded quotient does not fit into 128 bits.
pub fn checked_mul_div_round_up_if(n0: u128, n1: u128, d: u128, round_up: bool) -> (r: Result<
    u128,
    ErrorCode,
>)
    ensures
        d == 0 ==> r == Err::<u128, ErrorCode>(ErrorCode::DivideByZero),
        d != 0 && div_round(n0 * n1, d as int, round_up) > u128::MAX ==> r == Err::<
            u128,
            ErrorCode,
        >(ErrorCode::MulDivOverflow),
        d != 0 && div_round(n0 * n1, d as int, round_up) <= u128::MAX ==> r == Ok::<
            u128,
            ErrorCode,
        >(div_round(n0 * n1, d as int, round_up) as u128),
{
    if d == 0 {
        return Err(ErrorCode::DivideByZero);
    }
    let p = mul_u256(n0, n1);
    match div_round_up_if_u256(p, U256Muldiv::new(0, d), round_up) {
        Ok(n) => Ok(n),
        Err(_) => Err(ErrorCode::MulDivOverflow),
    }
}

/// `(n0 * n1) >> 64`, rounded down.
pub fn checked_mul_shift_right(n0: u128, n1: u128) -> (r: Result<u64, ErrorCode>)
    ensures
        r == mul_shift_right(n0, n1, false),
{
    checked_mul_shift_right_round_up_if(n0, n1, false)
}

/// What a multiply-shift returns: the product shifted right by 64 bits, one more where the
/// bits shifted out are not all zero and rounding up is asked for.
pub open spec fn mul_shift_right(n0: u128, n1: u128, round_up: bool) -> Result<u64, ErrorCode> {
    let p = n0 * n1;
    let should_round = round_up && p % pow2_64() != 0;
    if p >= pow2_128() {
        Err(ErrorCode::MultiplicationShiftRightOverflow)
    } else if should_round && p / pow2_64() == u64::MAX {
        Err(ErrorCode::MultiplicationOverflow)
    } else if should_round {
        Ok((p / pow2_64() + 1) as u64)
    } else {
        Ok((p / pow2_64()) as u64)
    }
}

/// Multiplies an integer by a Q64.64 fixed-point number and returns the integer part of
/// the product, rounded as asked.
///
/// Fails when the product exceeds 128 bits, so that its integer part exceeds 64 bits, and
/// when rounding up would carry out of 64 bits.
pub fn checked_mul_shift_right_round_up_if(n0: u128, n1: u128, round_up: bool) -> (r: Result<
    u64,
    ErrorCode,
>)
    ensures
        r == mul_shift_right(n0, n1, round_up),
{
    if n0 == 0 || n1 == 0 {
        assert(n0 * n1 == 0) by (nonlinear_arith)
            requires
                n0 == 0 || n1 == 0,
        ;
        return Ok(0);
    }
    let p: u128 = match n0.checked_mul(n1) {
        Some(p) => p,
        None => { return Err(ErrorCode::MultiplicationShiftRightOverflow); },
    };
    assert(p >> 64 == p / 0x1_0000_0000_0000_0000) by (bit_vector);
    assert(p & 0xFFFF_FFFF_FFFF_FFFF == p % 0x1_0000_0000_0000_0000) by (bit_vector);
    let result: u64 = (p >> Q64_RESOLUTION) as u64;
    let should_round = round_up && (p & Q64_MASK) > 0;
    if should_round && result == u64::MAX {
        return Err(ErrorCode::MultiplicationOverflow);
    }
    Ok(if should_round { result + 1 } else { result })
}

/// `n / d`, rounded up.
pub fn div_round_up(n: u128, d: u128) -> (r: Result<u128, ErrorCode>)
    ensures
        d == 0 ==> r == Err::<u128, ErrorCode>(ErrorCode::DivideByZero),
        d != 0 ==> r == Ok::<u128, ErrorCode>(div_round(n as int, d as int, true) as u128),
{
    div_round_up_if(n, d, true)
}

/// `n / d`, rounded as asked. Fails on a zero divisor.
pub fn div_round_up_if(n: u128, d: u128, round_up: bool) -> (r: Result<u128, ErrorCode>)
    ensures
        d == 0 ==> r == Err::<u128, ErrorCode>(ErrorCode::DivideByZero),
        d != 0 ==> r == Ok::<u128, ErrorCode>(div_round(n as int, d as int, round_up) as u128),
        d != 0 ==> div_round(n as int, d as int, round_up) <= u128::MAX,
{
    if d == 0 {
        return Err(ErrorCode::DivideByZero);
    }
    let q: u128 = n / d;
    proof {
        lemma_div_round_bounds(n as int, d as int, round_up);
    }
    Ok(if round_up && n % d > 0 { q + 1 } else { q })
}

/// `n / d` on 256-bit operands, rounded as asked and narrowed to 128 bits.
///
/// Fails on a zero divisor, and when the rounded quotient does not fit into 128 bits.
pub fn div_round_up_if_u256(n: U256Muldiv, d: U256Muldiv, round_up: bool) -> (r: Result<
    u128,
    ErrorCode,
>)
    ensures
        d@ == 0 ==> r == Err::<u128, ErrorCode>(ErrorCode::DivideByZero),
        d@ != 0 && div_round(n@, d@, round_up) > u128::MAX ==> r == Err::<u128, ErrorCode>(
            ErrorCode::NumberDownCastError,
        ),
        d@ != 0 && div_round(n@, d@, round_up) <= u128::MAX ==> r == Ok::<u128, ErrorCode>(
            div_round(n@, d@, round_up) as u128,
        ),
{
    if d.is_zero() {
        return Err(ErrorCode::DivideByZero);
    }
    let (quotient, remainder) = n.div(d, round_up);
    proof {
        lemma_div_round_bounds(n@, d@, round_up);
    }
    let result = if round_up && !remainder.is_zero() {
        quotient.add(U256Muldiv::new(0, 1))
    } else {
        quotient
    };
    result.try_into_u128()
}

/// A rounded quotient of a non-negative number lies between zero and that number, or is
/// one where the number is smaller than the divisor.
pub proof fn lemma_div_round_bounds(n: int, d: int, round_up: bool)
    requires
        n >= 0,
        d > 0,
    ensures
        0 <= n / d <= div_round(n, d, round_up) <= n / d + 1,
        div_round(n, d, round_up) <= n || (n < d && div_round(n, d, round_up) <= 1),
        div_round(n, d, round_up) * d >= n || !round_up,
        (n / d) * d <= n < (n / d) * d + d,
        div_round(n, d, true) * d < n + d,
{
    assert((n / d) * d + n % d == n && 0 <= n % d < d && 0 <= n / d && (n / d + 1) * d == (n / d)
        * d + d) by (nonlinear_arith)
        requires
            n >= 0,
            d > 0,
    ;
    if d == 1 {
        assert(n % d == 0);
        assert((n / d) * d == n / d) by (nonlinear_arith)
            requires
                d == 1,
        ;
    } else if n < d {
        assert(n / d == 0) by (nonlinear_arith)
            requires
                0 <= n < d,
        ;
    } else {
        assert(n / d < n) by (nonlinear_arith)
            requires
                n >= d,
                d >= 2,
        ;
    }
}

/// Rounding up never gives less than rounding down, never more than one more, and the
/// same exactly where the divisor divides the number.
pub proof fn lemma_round_up_dominates(n: int, d: int)
    requires
        d != 0,
    ensures
        div_round(n, d, true) >= div_round(n, d, false),
        div_round(n, d, true) <= div_round(n, d, false) + 1,
        div_round(n, d, true) == div_round(n, d, false) <==> n % d == 0,
{
}

/// For every non-zero divisor, a multiply-divide that rounds up returns at least what the
/// one that rounds down returns, and the same exactly where the divisor divides the
/// product. Where rounding up succeeds, rounding down succeeds too.
pub proof fn lemma_mul_div_round_up_dominates(n0: u128, n1: u128, d: u128)
    requires
        d != 0,
    ensures
        div_round(n0 * n1, d as int, true) >= div_round(n0 * n1, d as int, false),
        div_round(n0 * n1, d as int, true) == div_round(n0 * n1, d as int, false) <==> (n0 * n1)
            % (d as int) == 0,
        div_round(n0 * n1, d as int, true) <= u128::MAX ==> div_round(n0 * n1, d as int, false)
            <= u128::MAX,
{
}

/// Rounded quotients keep the order of the fractions they are taken from: where
/// `n1 / d1 <= n2 / d2` as fractions, the same holds of the quotients, rounded either way.
pub proof fn lemma_div_round_monotonic(n1: int, d1: int, n2: int, d2: int, round_up: bool)
    requires
        n1 >= 0,
        n2 >= 0,
        d1 > 0,
        d2 > 0,
        n1 * d2 <= n2 * d1,
    ensures
        div_round(n1, d1, round_up) <= div_round(n2, d2, round_up),
{
    let q1 = n1 / d1;
    let q2 = n2 / d2;
    lemma_div_round_bounds(n1, d1, round_up);
    lemma_div_round_bounds(n2, d2, round_up);
    assert(n1 == q1 * d1 + n1 % d1 && n2 == q2 * d2 + n2 % d2) by (nonlinear_arith)
        requires
            q1 == n1 / d1,
            q2 == n2 / d2,
            d1 > 0,
            d2 > 0,
    ;
    // q1 * d2 <= n2, and strictly so where d1 does not divide n1.
    assert(q1 * d2 <= n2 && (n1 % d1 != 0 ==> q1 * d2 < n2)) by (nonlinear_arith)
        requires
            n1 == q1 * d1 + n1 % d1,
            0 <= n1 % d1,
            n1 * d2 <= n2 * d1,
            d1 > 0,
            d2 > 0,
            q1 >= 0,
    ;
    assert(q1 <= q2) by (nonlinear_arith)
        requires
            q1 * d2 <= n2,
            n2 < q2 * d2 + d2,
            d2 > 0,
    ;
    if round_up && n1 % d1 != 0 && q1 == q2 {
        assert(n2 % d2 != 0);
    }
}

/// A multiply-shift grows with both of its factors: where it succeeds on two factors, it
/// succeeds on any two smaller ones and returns no more.
pub proof fn lemma_mul_shift_right_monotonic(
    n0: u128,
    n1: u128,
    m0: u128,
    m1: u128,
    round_up: bool,
)
    requires
        n0 <= m0,
        n1 <= m1,
    ensures
        mul_shift_right(m0, m1, round_up) matches Ok(greater) ==> (mul_shift_right(
            n0,
            n1,
            round_up,
        ) matches Ok(smaller) && smaller <= greater),
{
    let p = n0 * n1;
    let q = m0 * m1;
    assert(0 <= p <= q) by (nonlinear_arith)
        requires
            p == n0 * n1,
            q == m0 * m1,
            0 <= n0 <= m0,
            0 <= n1 <= m1,
    ;
}

/// A quotient rounded down is at least `c` where the number is at least `c * d`.
pub proof fn lemma_floor_at_least(n: int, d: int, c: int)
    requires
        d > 0,
        n >= c * d,
        c >= 0,
    ensures
        div_round(n, d, false) >= c,
        div_round(n, d, true) >= c,
{
    assert(n >= 0) by (nonlinear_arith)
        requires
            n >= c * d,
            c >= 0,
            d > 0,
    ;
    lemma_div_round_bounds(n, d, false);
    let q = n / d;
    assert(q >= c) by (nonlinear_arith)
        requires
            n < q * d + d,
            n >= c * d,
            d > 0,
    ;
}

/// A quotient rounded up is at most `c` where the number is at most `c * d`.
pub proof fn lemma_ceil_at_most(n: int, d: int, c: int)
    requires
        n >= 0,
        d > 0,
        n <= c * d,
    ensures
        div_round(n, d, true) <= c,
        div_round(n, d, false) <= c,
{
    lemma_div_round_bounds(n, d, true);
    let q = div_round(n, d, true);
    assert(q <= c) by (nonlinear_arith)
        requires
            q * d < n + d,
            n <= c * d,
            d > 0,
    ;
}

} // verus!
