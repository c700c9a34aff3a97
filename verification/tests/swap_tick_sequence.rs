use whirlpool::errors::ErrorCode;
use whirlpool::math::tick_math::{MAX_TICK_INDEX, MIN_TICK_INDEX};
use whirlpool::state::tick::{Tick, TickArray, TickUpdate};
use whirlpool::util::swap_tick_sequence::SwapTickSequence;

fn initialized(liquidity_net: i128) -> TickUpdate {
    TickUpdate {
        initialized: true,
        liquidity_net,
        liquidity_gross: liquidity_net.unsigned_abs(),
        fee_growth_outside_a: 0,
        fee_growth_outside_b: 0,
        reward_growths_outside: [0, 0, 0],
    }
}

fn array_with(start: i32, ticks: &[i32]) -> TickArray {
    let mut array = TickArray::initialize(start, 64).unwrap();
    for tick in ticks {
        array.update_tick(*tick, 64, &initialized(5)).unwrap();
    }
    array
}

#[test]
fn new_keeps_the_arrays_in_order() {
    let a = array_with(0, &[]);
    let b = array_with(5632, &[]);
    let c = array_with(11264, &[]);
    assert_eq!(SwapTickSequence::new(a, None, None).arrays, vec![a]);
    assert_eq!(SwapTickSequence::new(a, Some(b), None).arrays, vec![a, b]);
    assert_eq!(SwapTickSequence::new(a, Some(b), Some(c)).arrays, vec![a, b, c]);
    assert_eq!(SwapTickSequence::new(a, None, Some(c)).arrays, vec![a, c]);
}

#[test]
fn get_tick_reads_from_the_array_asked_for() {
    let sequence =
        SwapTickSequence::new(array_with(0, &[128]), Some(array_with(5632, &[5632])), None);
    assert!(sequence.get_tick(0, 128, 64).unwrap().initialized);
    assert!(!sequence.get_tick(0, 64, 64).unwrap().initialized);
    assert!(sequence.get_tick(1, 5632, 64).unwrap().initialized);
    assert_eq!(sequence.get_tick(1, 128, 64), Err(ErrorCode::TickNotFound));
    assert_eq!(sequence.get_tick(2, 128, 64), Err(ErrorCode::TickArrayIndexOutofBounds));
    assert_eq!(sequence.get_tick(0, 128, 0), Err(ErrorCode::InvalidTickSpacing));
}

#[test]
fn get_tick_offset_reads_from_the_array_asked_for() {
    let sequence = SwapTickSequence::new(array_with(0, &[]), Some(array_with(5632, &[])), None);
    assert_eq!(sequence.get_tick_offset(0, 128, 64), Ok(2));
    assert_eq!(sequence.get_tick_offset(1, 5632 + 128, 64), Ok(2));
    assert_eq!(sequence.get_tick_offset(1, 128, 64), Err(ErrorCode::TickNotFound));
    assert_eq!(sequence.get_tick_offset(2, 128, 64), Err(ErrorCode::TickArrayIndexOutofBounds));
}

#[test]
fn update_tick_writes_to_the_array_asked_for() {
    let mut sequence =
        SwapTickSequence::new(array_with(0, &[]), Some(array_with(5632, &[])), None);
    assert_eq!(sequence.update_tick(1, 5696, 64, &initialized(-3)), Ok(()));
    assert_eq!(sequence.arrays[0], array_with(0, &[]));
    let tick = *sequence.get_tick(1, 5696, 64).unwrap();
    assert_eq!(tick.liquidity_net, -3);
    assert_eq!(tick.liquidity_gross, 3);
    assert!(tick.initialized);
    let before = sequence.arrays.clone();
    assert_eq!(
        sequence.update_tick(2, 5696, 64, &initialized(1)),
        Err(ErrorCode::TickArrayIndexOutofBounds)
    );
    assert_eq!(sequence.update_tick(0, 5696, 64, &initialized(1)), Err(ErrorCode::TickNotFound));
    assert_eq!(sequence.arrays, before);
}

#[test]
fn traversal_finds_a_tick_in_the_first_array() {
    let sequence =
        SwapTickSequence::new(array_with(0, &[128, 640]), Some(array_with(-5632, &[-64])), None);
    assert_eq!(sequence.get_next_initialized_tick_index(700, 64, true, 0), Ok((0, 640)));
    assert_eq!(sequence.get_next_initialized_tick_index(639, 64, true, 0), Ok((0, 128)));
    let upward =
        SwapTickSequence::new(array_with(0, &[128, 640]), Some(array_with(5632, &[5632])), None);
    assert_eq!(upward.get_next_initialized_tick_index(0, 64, false, 0), Ok((0, 128)));
    assert_eq!(upward.get_next_initialized_tick_index(128, 64, false, 0), Ok((0, 640)));
}

#[test]
fn traversal_goes_on_in_the_next_array() {
    let downward = SwapTickSequence::new(
        array_with(0, &[128]),
        Some(array_with(-5632, &[])),
        Some(array_with(-11264, &[-11200])),
    );
    assert_eq!(downward.get_next_initialized_tick_index(100, 64, true, 0), Ok((2, -11200)));
    assert_eq!(downward.get_next_initialized_tick_index(-100, 64, true, 1), Ok((2, -11200)));
    let upward = SwapTickSequence::new(
        array_with(0, &[128]),
        Some(array_with(5632, &[])),
        Some(array_with(11264, &[11264])),
    );
    assert_eq!(upward.get_next_initialized_tick_index(128, 64, false, 0), Ok((2, 11264)));
}

#[test]
fn traversal_stops_at_the_boundary_of_the_last_array() {
    let downward = SwapTickSequence::new(array_with(0, &[]), Some(array_with(-5632, &[])), None);
    assert_eq!(downward.get_next_initialized_tick_index(100, 64, true, 0), Ok((1, -5632)));
    let upward = SwapTickSequence::new(array_with(0, &[]), Some(array_with(5632, &[])), None);
    assert_eq!(upward.get_next_initialized_tick_index(100, 64, false, 0), Ok((1, 5632 + 5631)));
    let single = SwapTickSequence::new(array_with(0, &[]), None, None);
    assert_eq!(single.get_next_initialized_tick_index(100, 64, true, 0), Ok((0, 0)));
    assert_eq!(single.get_next_initialized_tick_index(100, 64, false, 0), Ok((0, 5631)));
}

#[test]
fn traversal_stops_at_the_ends_of_the_range() {
    let min = SwapTickSequence::new(
        array_with(-439296, &[]),
        Some(array_with(-444928, &[])),
        Some(array_with(0, &[])),
    );
    assert_eq!(
        min.get_next_initialized_tick_index(-439000, 64, true, 0),
        Ok((1, MIN_TICK_INDEX))
    );
    let max = SwapTickSequence::new(
        array_with(433664, &[]),
        Some(array_with(439296, &[])),
        Some(array_with(0, &[])),
    );
    assert_eq!(
        max.get_next_initialized_tick_index(433700, 64, false, 0),
        Ok((1, MAX_TICK_INDEX))
    );
}

#[test]
fn traversal_fails_past_the_last_array() {
    let sequence = SwapTickSequence::new(array_with(0, &[]), None, None);
    assert_eq!(
        sequence.get_next_initialized_tick_index(100, 64, true, 1),
        Err(ErrorCode::TickArraySequenceInvalidIndex)
    );
    assert_eq!(
        sequence.get_next_initialized_tick_index(100, 64, false, 7),
        Err(ErrorCode::TickArraySequenceInvalidIndex)
    );
}

#[test]
fn traversal_fails_where_the_arrays_do_not_follow_each_other() {
    let gap = SwapTickSequence::new(array_with(0, &[]), Some(array_with(-11264, &[])), None);
    assert_eq!(
        gap.get_next_initialized_tick_index(100, 64, true, 0),
        Err(ErrorCode::InvalidTickArraySequence)
    );
    let wrong_way = SwapTickSequence::new(array_with(0, &[]), Some(array_with(-5632, &[])), None);
    assert_eq!(
        wrong_way.get_next_initialized_tick_index(100, 64, false, 0),
        Err(ErrorCode::InvalidTickArraySequence)
    );
    let outside = SwapTickSequence::new(array_with(0, &[]), None, None);
    assert_eq!(
        outside.get_next_initialized_tick_index(6000, 64, true, 0),
        Err(ErrorCode::InvalidTickArraySequence)
    );
    assert_eq!(
        outside.get_next_initialized_tick_index(100, 0, true, 0),
        Err(ErrorCode::InvalidTickSpacing)
    );
    let unused = Tick::new();
    assert!(!unused.initialized);
}
