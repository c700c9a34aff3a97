use crate::errors::ErrorCode;
use vstd::prelude::*;

verus! {

/// What `add_liquidity_delta` returns.
pub open spec fn liquidity_plus_delta(liquidity: u128, delta: i128) -> Result<u128, ErrorCode> {
    if liquidity + delta > u128::MAX {
        Err(ErrorCode::LiquidityOverflow)
    } else if liquidity + delta < 0 {
        Err(ErrorCode::LiquidityUnderflow)
    } else {
        Ok((liquidity + delta) as u128)
    }
}

/// `liquidity + delta`. Fails with `LiquidityOverflow` above 128 bits and with
/// `LiquidityUnderflow` below zero.
pub fn add_liquidity_delta(liquidity: u128, delta: i128) -> (r: Result<u128, ErrorCode>)
    ensures
        r == liquidity_plus_delta(liquidity, delta),
{
    if delta == 0 {
        return Ok(liquidity);
    }
    if delta > 0 {
        match liquidity.checked_add(delta as u128) {
            Some(v) => Ok(v),
            None => Err(ErrorCode::LiquidityOverflow),
        }
    } else {
        let magnitude: u128 = if delta == i128::MIN {
            0x8000_0000_0000_0000_0000_0000_0000_0000
        } else {
            (-delta) as u128
        };
        match liquidity.checked_sub(magnitude) {
            Some(v) => Ok(v),
            None => Err(ErrorCode::LiquidityUnderflow),
        }
    }
}

/// The signed change of liquidity that adds `liquidity_amount` where `positive`, and
/// takes it away otherwise. Fails with `LiquidityTooHigh` where the amount exceeds what
/// a signed 128-bit change can hold.
pub fn convert_to_liquidity_delta(liquidity_amount: u128, positive: bool) -> (r: Result<
    i128,
    ErrorCode,
>)
    ensures
        liquidity_amount > i128::MAX ==> r == Err::<i128, ErrorCode>(ErrorCode::LiquidityTooHigh),
        liquidity_amount <= i128::MAX ==> r == Ok::<i128, ErrorCode>(
            if positive {
                liquidity_amount as i128
            } else {
                (-liquidity_amount) as i128
            },
        ),
{
    if liquidity_amount > i128::MAX as u128 {
        return Err(ErrorCode::LiquidityTooHigh);
    }
    Ok(
        if positive {
            liquidity_amount as i128
        } else {
            -(liquidity_amount as i128)
        },
    )
}

} // verus!
