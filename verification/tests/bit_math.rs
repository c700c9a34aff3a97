use whirlpool::errors::ErrorCode;
use whirlpool::math::bit_math::{
    checked_mul_div, checked_mul_div_round_up, checked_mul_div_round_up_if,
    checked_mul_shift_right, checked_mul_shift_right_round_up_if, div_round_up, div_round_up_if,
    div_round_up_if_u256,
};
use whirlpool::math::u256_math::U256Muldiv;

#[test]
fn mul_div_rounds_down() {
    assert_eq!(checked_mul_div(7, 9, 2), Ok(31));
    assert_eq!(checked_mul_div(6, 9, 2), Ok(27));
    assert_eq!(checked_mul_div(0, 9, 2), Ok(0));
    assert_eq!(checked_mul_div_round_up_if(7, 9, 2, false), Ok(31));
}

#[test]
fn mul_div_rounds_up() {
    assert_eq!(checked_mul_div_round_up(7, 9, 2), Ok(32));
    assert_eq!(checked_mul_div_round_up(6, 9, 2), Ok(27));
    assert_eq!(checked_mul_div_round_up_if(7, 9, 2, true), Ok(32));
}

#[test]
fn mul_div_by_zero_fails_whatever_the_rest() {
    assert_eq!(checked_mul_div(7, 9, 0), Err(ErrorCode::DivideByZero));
    assert_eq!(checked_mul_div_round_up(7, 9, 0), Err(ErrorCode::DivideByZero));
    assert_eq!(checked_mul_div_round_up_if(0, 0, 0, true), Err(ErrorCode::DivideByZero));
    assert_eq!(
        checked_mul_div_round_up_if(u128::MAX, u128::MAX, 0, false),
        Err(ErrorCode::DivideByZero)
    );
}

#[test]
fn mul_div_uses_the_full_product() {
    assert_eq!(checked_mul_div(u128::MAX, u128::MAX, u128::MAX), Ok(u128::MAX));
    assert_eq!(checked_mul_div(u128::MAX, 2, 2), Ok(u128::MAX));
    assert_eq!(checked_mul_div(1u128 << 127, 6, 4), Ok(3u128 << 126));
}

#[test]
fn mul_div_fails_where_the_quotient_exceeds_128_bits() {
    assert_eq!(checked_mul_div(u128::MAX, 2, 1), Err(ErrorCode::MulDivOverflow));
    assert_eq!(checked_mul_div(u128::MAX, u128::MAX, 1), Err(ErrorCode::MulDivOverflow));
}

#[test]
fn mul_div_rounding_up_can_leave_128_bits() {
    // 7 * n1 = 2^129 - 1: half of it, rounded down, is the largest 128-bit number.
    let n1: u128 = 97223533405982418132392744980505203273;
    assert_eq!(7u128.wrapping_mul(n1), u128::MAX);
    assert_eq!(checked_mul_div_round_up_if(7, n1, 2, false), Ok(u128::MAX));
    assert_eq!(checked_mul_div_round_up_if(7, n1, 2, true), Err(ErrorCode::MulDivOverflow));
}

#[test]
fn mul_div_round_up_is_never_less_and_equal_only_for_multiples() {
    let cases: [(u128, u128, u128); 6] = [
        (7, 9, 2),
        (6, 9, 2),
        (1, 1, 3),
        (u128::MAX, 3, 7),
        (u128::MAX, 7, 7),
        (0, 5, 9),
    ];
    for (n0, n1, d) in cases {
        let down = checked_mul_div_round_up_if(n0, n1, d, false).unwrap();
        let up = checked_mul_div_round_up_if(n0, n1, d, true).unwrap();
        assert!(up >= down);
        let exact = U256Muldiv::new(0, n0).is_zero() || {
            let (_, r) = whirlpool::math::u256_math::mul_u256(n0, n1).div(U256Muldiv::new(0, d), true);
            r.is_zero()
        };
        assert_eq!(up == down, exact);
        assert!(up - down <= 1);
    }
}

#[test]
fn mul_shift_right_drops_the_fraction() {
    assert_eq!(checked_mul_shift_right(5, 1u128 << 64), Ok(5));
    assert_eq!(checked_mul_shift_right(5, (1u128 << 64) + 1), Ok(5));
    assert_eq!(checked_mul_shift_right_round_up_if(5, (1u128 << 64) + 1, false), Ok(5));
    assert_eq!(checked_mul_shift_right_round_up_if(1_000_000_000, 5u128 << 60, false), Ok(312_500_000));
}

#[test]
fn mul_shift_right_rounds_up_on_a_fraction() {
    assert_eq!(checked_mul_shift_right_round_up_if(5, (1u128 << 64) + 1, true), Ok(6));
    assert_eq!(checked_mul_shift_right_round_up_if(5, 1u128 << 64, true), Ok(5));
    assert_eq!(checked_mul_shift_right_round_up_if(1, 1, true), Ok(1));
    assert_eq!(checked_mul_shift_right_round_up_if(1, 1, false), Ok(0));
}

#[test]
fn mul_shift_right_of_zero_is_zero() {
    assert_eq!(checked_mul_shift_right_round_up_if(0, u128::MAX, true), Ok(0));
    assert_eq!(checked_mul_shift_right_round_up_if(u128::MAX, 0, true), Ok(0));
}

#[test]
fn mul_shift_right_fails_where_the_result_exceeds_64_bits() {
    assert_eq!(
        checked_mul_shift_right(1u128 << 64, 1u128 << 64),
        Err(ErrorCode::MultiplicationShiftRightOverflow)
    );
    assert_eq!(
        checked_mul_shift_right_round_up_if(u128::MAX, 2, false),
        Err(ErrorCode::MultiplicationShiftRightOverflow)
    );
    assert_eq!(checked_mul_shift_right(u64::MAX as u128, 1u128 << 64), Ok(u64::MAX));
}

#[test]
fn mul_shift_right_fails_where_rounding_up_carries_out() {
    let n1 = ((u64::MAX as u128) << 64) + 1;
    assert_eq!(checked_mul_shift_right_round_up_if(1, n1, false), Ok(u64::MAX));
    assert_eq!(
        checked_mul_shift_right_round_up_if(1, n1, true),
        Err(ErrorCode::MultiplicationOverflow)
    );
}

#[test]
fn div_round_up_rounds_as_asked() {
    assert_eq!(div_round_up(7, 2), Ok(4));
    assert_eq!(div_round_up(8, 2), Ok(4));
    assert_eq!(div_round_up_if(7, 2, false), Ok(3));
    assert_eq!(div_round_up_if(7, 2, true), Ok(4));
    assert_eq!(div_round_up_if(0, 2, true), Ok(0));
    assert_eq!(div_round_up_if(u128::MAX, 1, true), Ok(u128::MAX));
    assert_eq!(div_round_up_if(u128::MAX, 2, true), Ok(1u128 << 127));
}

#[test]
fn div_round_up_by_zero_fails() {
    assert_eq!(div_round_up(7, 0), Err(ErrorCode::DivideByZero));
    assert_eq!(div_round_up_if(7, 0, false), Err(ErrorCode::DivideByZero));
}

#[test]
fn div_round_up_if_u256_rounds_and_narrows() {
    let n = U256Muldiv::new(1, 1);
    assert_eq!(div_round_up_if_u256(n, U256Muldiv::new(0, 2), false), Ok(1u128 << 127));
    assert_eq!(div_round_up_if_u256(n, U256Muldiv::new(0, 2), true), Ok((1u128 << 127) + 1));
    assert_eq!(
        div_round_up_if_u256(U256Muldiv::new(0, 9), U256Muldiv::new(0, 3), true),
        Ok(3)
    );
}

#[test]
fn div_round_up_if_u256_fails_on_zero_and_on_overflow() {
    let n = U256Muldiv::new(1, 1);
    assert_eq!(
        div_round_up_if_u256(n, U256Muldiv::new(0, 0), true),
        Err(ErrorCode::DivideByZero)
    );
    assert_eq!(
        div_round_up_if_u256(n, U256Muldiv::new(0, 1), true),
        Err(ErrorCode::NumberDownCastError)
    );
    let most = U256Muldiv::new(0, u128::MAX);
    assert_eq!(div_round_up_if_u256(most, U256Muldiv::new(0, 1), true), Ok(u128::MAX));
}
