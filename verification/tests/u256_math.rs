use whirlpool::errors::ErrorCode;
use whirlpool::math::u256_math::{mul_u256, U256Muldiv};

fn parts(v: U256Muldiv) -> (u128, u128) {
    (v.hi, v.lo)
}

#[test]
fn new_holds_both_halves() {
    assert_eq!(parts(U256Muldiv::new(7, 9)), (7, 9));
    assert!(U256Muldiv::new(0, 0).is_zero());
    assert!(!U256Muldiv::new(1, 0).is_zero());
    assert!(!U256Muldiv::new(0, 1).is_zero());
}

#[test]
fn add_carries_into_the_upper_half() {
    let sum = U256Muldiv::new(1, u128::MAX).add(U256Muldiv::new(2, 1));
    assert_eq!(parts(sum), (4, 0));
}

#[test]
fn add_wraps_at_256_bits() {
    let sum = U256Muldiv::new(u128::MAX, u128::MAX).add(U256Muldiv::new(0, 2));
    assert_eq!(parts(sum), (0, 1));
}

#[test]
fn sub_borrows_from_the_upper_half() {
    let diff = U256Muldiv::new(4, 0).sub(U256Muldiv::new(2, 1));
    assert_eq!(parts(diff), (1, u128::MAX));
}

#[test]
fn sub_wraps_below_zero() {
    let diff = U256Muldiv::new(0, 1).sub(U256Muldiv::new(0, 2));
    assert_eq!(parts(diff), (u128::MAX, u128::MAX));
}

#[test]
fn comparisons_order_by_value() {
    let small = U256Muldiv::new(1, u128::MAX);
    let large = U256Muldiv::new(2, 0);
    assert!(small.lt(large));
    assert!(small.lte(large));
    assert!(small.lte(small));
    assert!(!small.lt(small));
    assert!(large.gt(small));
    assert!(large.gte(small));
    assert!(large.gte(large));
    assert!(!large.gt(large));
    assert!(small.eq(U256Muldiv::new(1, u128::MAX)));
    assert!(!small.eq(large));
}

#[test]
fn shift_word_left_moves_by_64_bits() {
    let v = U256Muldiv::new(0, 0x1_0000_0000_0000_0005);
    assert_eq!(parts(v.shift_word_left()), (1, 5u128 << 64));
    let top = U256Muldiv::new(1u128 << 64, 0);
    assert_eq!(parts(top.shift_word_left()), (0, 0));
}

#[test]
fn checked_shift_word_left_refuses_a_set_top_word() {
    assert!(U256Muldiv::new(1u128 << 64, 0).checked_shift_word_left().is_none());
    let below = U256Muldiv::new((1u128 << 64) - 1, u128::MAX);
    let shifted = below.checked_shift_word_left().unwrap();
    assert_eq!(parts(shifted), (u128::MAX, u128::MAX << 64));
}

#[test]
fn shift_word_right_moves_by_64_bits() {
    let v = U256Muldiv::new((7u128 << 64) | 3, 9u128 << 64);
    assert_eq!(parts(v.shift_word_right()), (7, (3u128 << 64) | 9));
}

#[test]
fn try_into_u128_fails_above_128_bits() {
    assert_eq!(U256Muldiv::new(0, u128::MAX).try_into_u128(), Ok(u128::MAX));
    assert_eq!(U256Muldiv::new(1, 0).try_into_u128(), Err(ErrorCode::NumberDownCastError));
}

#[test]
fn mul_u256_is_the_full_product() {
    assert_eq!(parts(mul_u256(u128::MAX, u128::MAX)), (u128::MAX - 1, 1));
    assert_eq!(parts(mul_u256(1u128 << 100, 1u128 << 100)), (1u128 << 72, 0));
    assert_eq!(parts(mul_u256(0, u128::MAX)), (0, 0));
    assert_eq!(parts(mul_u256(12345, 67890)), (0, 838102050));
}

#[test]
fn div_gives_quotient_and_remainder() {
    let n = mul_u256(u128::MAX, u128::MAX);
    let (q, r) = n.div(U256Muldiv::new(0, u128::MAX), true);
    assert_eq!(parts(q), (0, u128::MAX));
    assert_eq!(parts(r), (0, 0));
    let (q, r) = U256Muldiv::new(5, 7).div(U256Muldiv::new(1, 0), true);
    assert_eq!(parts(q), (0, 5));
    assert_eq!(parts(r), (0, 7));
    let (q, r) = U256Muldiv::new(0, 100).div(U256Muldiv::new(0, 7), true);
    assert_eq!(parts(q), (0, 14));
    assert_eq!(parts(r), (0, 2));
}

#[test]
fn div_by_a_greater_number_is_zero() {
    let (q, r) = U256Muldiv::new(0, 5).div(U256Muldiv::new(u128::MAX, 0), true);
    assert_eq!(parts(q), (0, 0));
    assert_eq!(parts(r), (0, 5));
}

#[test]
fn div_by_a_number_with_the_top_bit_set() {
    let d = U256Muldiv::new(1u128 << 127, 1);
    let n = U256Muldiv::new(u128::MAX, u128::MAX);
    let (q, r) = n.div(d, true);
    assert_eq!(parts(q), (0, 1));
    assert_eq!(parts(r), ((1u128 << 127) - 1, u128::MAX - 1));
}

#[test]
fn div_without_remainder_returns_zero_for_it() {
    let (q, r) = U256Muldiv::new(0, 100).div(U256Muldiv::new(0, 7), false);
    assert_eq!(parts(q), (0, 14));
    assert_eq!(parts(r), (0, 0));
}
