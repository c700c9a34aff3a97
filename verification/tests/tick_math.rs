use whirlpool::math::tick_math::{
    sqrt_price_from_tick_index, tick_index_from_sqrt_price, MAX_SQRT_PRICE_X64, MAX_TICK_INDEX,
    MIN_SQRT_PRICE_X64, MIN_TICK_INDEX,
};

#[test]
fn price_at_tick_zero_is_one() {
    assert_eq!(sqrt_price_from_tick_index(0), 1u128 << 64);
}

#[test]
fn prices_of_small_ticks() {
    assert_eq!(sqrt_price_from_tick_index(1), 18447666387855959850);
    assert_eq!(sqrt_price_from_tick_index(-1), 18445821805675392311);
    assert_eq!(sqrt_price_from_tick_index(64), 18505865242158250041);
    assert_eq!(sqrt_price_from_tick_index(-64), 18387811781193591352);
    assert_eq!(sqrt_price_from_tick_index(100), 18539204128674405812);
    assert_eq!(sqrt_price_from_tick_index(-100), 18354745142194483561);
    assert_eq!(sqrt_price_from_tick_index(5631), 24444953783141064184);
}

#[test]
fn prices_at_the_ends_of_the_range() {
    assert_eq!(sqrt_price_from_tick_index(MAX_TICK_INDEX), MAX_SQRT_PRICE_X64);
    assert_eq!(sqrt_price_from_tick_index(MIN_TICK_INDEX), MIN_SQRT_PRICE_X64);
}

#[test]
fn prices_rise_with_the_tick() {
    let mut last = sqrt_price_from_tick_index(MIN_TICK_INDEX);
    let mut tick = MIN_TICK_INDEX + 1;
    while tick <= MAX_TICK_INDEX {
        let price = sqrt_price_from_tick_index(tick);
        assert!(price > last);
        last = price;
        tick += 997;
    }
}

#[test]
fn tick_of_a_price_is_the_last_tick_at_or_below_it() {
    assert_eq!(tick_index_from_sqrt_price(1u128 << 64), 0);
    assert_eq!(tick_index_from_sqrt_price((1u128 << 64) - 1), -1);
    assert_eq!(tick_index_from_sqrt_price(sqrt_price_from_tick_index(100)), 100);
    assert_eq!(tick_index_from_sqrt_price(sqrt_price_from_tick_index(100) - 1), 99);
    assert_eq!(tick_index_from_sqrt_price(sqrt_price_from_tick_index(-100) + 1), -100);
}

#[test]
fn tick_of_a_price_at_the_ends_of_the_range() {
    assert_eq!(tick_index_from_sqrt_price(MIN_SQRT_PRICE_X64), MIN_TICK_INDEX);
    assert_eq!(tick_index_from_sqrt_price(MAX_SQRT_PRICE_X64), MAX_TICK_INDEX);
    assert_eq!(tick_index_from_sqrt_price(0), MIN_TICK_INDEX);
    assert_eq!(tick_index_from_sqrt_price(u128::MAX), MAX_TICK_INDEX);
}

#[test]
fn tick_and_price_agree() {
    for tick in [-443636, -443635, -65536, -1, 0, 1, 2, 3, 887, 65535, 65536, 443635, 443636] {
        assert_eq!(tick_index_from_sqrt_price(sqrt_price_from_tick_index(tick)), tick);
    }
}

#[test]
fn tick_of_a_price_is_the_greatest_tick_at_or_below_it() {
    for tick in [-443636, -100000, -64, -1, 0, 1, 64, 100000, 443635] {
        let price = sqrt_price_from_tick_index(tick);
        let next = sqrt_price_from_tick_index(tick + 1);
        assert!(price < next);
        assert_eq!(tick_index_from_sqrt_price(price), tick);
        assert_eq!(tick_index_from_sqrt_price(next - 1), tick);
        assert_eq!(tick_index_from_sqrt_price(next), tick + 1);
        assert_eq!(tick_index_from_sqrt_price(price + (next - price) / 2), tick);
    }
}
