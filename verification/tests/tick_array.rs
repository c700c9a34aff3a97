use whirlpool::errors::ErrorCode;
use whirlpool::math::tick_math::{MAX_TICK_INDEX, MIN_TICK_INDEX};
use whirlpool::state::tick::{Tick, TickArray, TickUpdate, TICK_ARRAY_SIZE};

fn initialized(liquidity_net: i128) -> TickUpdate {
    TickUpdate {
        initialized: true,
        liquidity_net,
        liquidity_gross: liquidity_net.unsigned_abs(),
        fee_growth_outside_a: 0,
        fee_growth_outside_b: 0,
        reward_growths_outside: [0, 0, 0],
    }
}

fn array_with(start: i32, spacing: u16, ticks: &[i32]) -> TickArray {
    let mut array = TickArray::initialize(start, spacing).unwrap();
    for tick in ticks {
        array.update_tick(*tick, spacing, &initialized(5)).unwrap();
    }
    array
}

#[test]
fn usable_ticks_lie_in_range_and_on_the_grid() {
    assert!(Tick::check_is_usable_tick(0, 64));
    assert!(Tick::check_is_usable_tick(128, 64));
    assert!(Tick::check_is_usable_tick(-128, 64));
    assert!(!Tick::check_is_usable_tick(100, 64));
    assert!(!Tick::check_is_usable_tick(-100, 64));
    assert!(!Tick::check_is_usable_tick(0, 0));
    assert!(Tick::check_is_usable_tick(MAX_TICK_INDEX, 1));
    assert!(Tick::check_is_usable_tick(MIN_TICK_INDEX, 1));
    assert!(!Tick::check_is_usable_tick(MAX_TICK_INDEX + 1, 1));
    assert!(!Tick::check_is_usable_tick(MIN_TICK_INDEX - 1, 1));
    assert!(Tick::check_is_out_of_bounds(MAX_TICK_INDEX + 1));
    assert!(!Tick::check_is_out_of_bounds(MAX_TICK_INDEX));
}

#[test]
fn start_ticks_are_multiples_of_the_array_width() {
    assert!(Tick::check_is_valid_start_tick(0, 64));
    assert!(Tick::check_is_valid_start_tick(5632, 64));
    assert!(Tick::check_is_valid_start_tick(-5632, 64));
    assert!(!Tick::check_is_valid_start_tick(64, 64));
    assert!(!Tick::check_is_valid_start_tick(0, 0));
    // The array that holds the smallest tick starts below the range.
    assert!(Tick::check_is_valid_start_tick(-444928, 64));
    assert!(!Tick::check_is_valid_start_tick(-444928 - 5632, 64));
    assert!(Tick::check_is_valid_start_tick(439296, 64));
    assert!(!Tick::check_is_valid_start_tick(444928, 64));
}

#[test]
fn initialize_gives_uninitialized_ticks() {
    let array = TickArray::initialize(5632, 64).unwrap();
    assert_eq!(array.start_tick_index, 5632);
    for tick in array.ticks.iter() {
        assert_eq!(*tick, Tick::new());
        assert!(!tick.initialized);
    }
    assert_eq!(TickArray::initialize(64, 64), Err(ErrorCode::InvalidStartTick));
    assert_eq!(TickArray::initialize(0, 0), Err(ErrorCode::InvalidStartTick));
}

#[test]
fn tick_offset_counts_spacings_from_the_start() {
    let array = TickArray::initialize(5632, 64).unwrap();
    assert_eq!(array.tick_offset(5632, 64), Ok(0));
    assert_eq!(array.tick_offset(5696, 64), Ok(1));
    assert_eq!(array.tick_offset(5632 + 87 * 64, 64), Ok(87));
    let below = TickArray::initialize(-5632, 64).unwrap();
    assert_eq!(below.tick_offset(-64, 64), Ok(87));
    assert_eq!(below.tick_offset(-5632, 64), Ok(0));
}

#[test]
fn tick_offset_fails_outside_the_array_and_off_the_grid() {
    let array = TickArray::initialize(5632, 64).unwrap();
    assert_eq!(array.tick_offset(5631, 64), Err(ErrorCode::TickNotFound));
    assert_eq!(array.tick_offset(5632 + 88 * 64, 64), Err(ErrorCode::TickNotFound));
    assert_eq!(array.tick_offset(5633, 64), Err(ErrorCode::TickNotFound));
    assert_eq!(array.tick_offset(0, 64), Err(ErrorCode::TickNotFound));
    assert_eq!(array.tick_offset(5632, 0), Err(ErrorCode::InvalidTickSpacing));
}

#[test]
fn update_tick_writes_one_tick() {
    let mut array = TickArray::initialize(0, 64).unwrap();
    let update = TickUpdate {
        initialized: true,
        liquidity_net: -7,
        liquidity_gross: 9,
        fee_growth_outside_a: 11,
        fee_growth_outside_b: 13,
        reward_growths_outside: [1, 2, 3],
    };
    assert_eq!(array.update_tick(128, 64, &update), Ok(()));
    let tick = *array.get_tick(128, 64).unwrap();
    assert!(tick.initialized);
    assert_eq!(tick.liquidity_net, -7);
    assert_eq!(tick.liquidity_gross, 9);
    assert_eq!(tick.fee_growth_outside_a, 11);
    assert_eq!(tick.fee_growth_outside_b, 13);
    assert_eq!(tick.reward_growths_outside, [1, 2, 3]);
    assert_eq!(TickUpdate::from(&tick), update);
    for (offset, other) in array.ticks.iter().enumerate() {
        if offset != 2 {
            assert_eq!(*other, Tick::new());
        }
    }
}

#[test]
fn get_and_update_tick_fail_on_a_tick_that_the_array_does_not_hold() {
    let mut array = TickArray::initialize(0, 64).unwrap();
    let before = array;
    assert_eq!(array.get_tick(-64, 64), Err(ErrorCode::TickNotFound));
    assert_eq!(array.get_tick(100, 64), Err(ErrorCode::TickNotFound));
    assert_eq!(array.get_tick(0, 0), Err(ErrorCode::InvalidTickSpacing));
    assert_eq!(array.update_tick(5632, 64, &initialized(1)), Err(ErrorCode::TickNotFound));
    assert_eq!(array.update_tick(1, 64, &initialized(1)), Err(ErrorCode::TickNotFound));
    assert_eq!(array.update_tick(0, 0, &initialized(1)), Err(ErrorCode::InvalidTickSpacing));
    assert_eq!(array, before);
}

#[test]
fn search_towards_smaller_ticks_counts_the_start() {
    let array = array_with(0, 64, &[128, 640]);
    assert_eq!(array.get_next_init_tick_index(640, 64, true), Ok(Some(640)));
    assert_eq!(array.get_next_init_tick_index(639, 64, true), Ok(Some(128)));
    assert_eq!(array.get_next_init_tick_index(700, 64, true), Ok(Some(640)));
    assert_eq!(array.get_next_init_tick_index(5631, 64, true), Ok(Some(640)));
    assert_eq!(array.get_next_init_tick_index(128, 64, true), Ok(Some(128)));
    assert_eq!(array.get_next_init_tick_index(127, 64, true), Ok(None));
    assert_eq!(array.get_next_init_tick_index(0, 64, true), Ok(None));
}

#[test]
fn search_towards_greater_ticks_skips_the_start() {
    let array = array_with(0, 64, &[128, 640]);
    assert_eq!(array.get_next_init_tick_index(0, 64, false), Ok(Some(128)));
    assert_eq!(array.get_next_init_tick_index(127, 64, false), Ok(Some(128)));
    assert_eq!(array.get_next_init_tick_index(128, 64, false), Ok(Some(640)));
    assert_eq!(array.get_next_init_tick_index(639, 64, false), Ok(Some(640)));
    assert_eq!(array.get_next_init_tick_index(640, 64, false), Ok(None));
    assert_eq!(array.get_next_init_tick_index(-1, 64, false), Ok(Some(128)));
    assert_eq!(array.get_next_init_tick_index(-64, 64, false), Ok(Some(128)));
    let first = array_with(0, 64, &[0]);
    assert_eq!(first.get_next_init_tick_index(-1, 64, false), Ok(Some(0)));
    assert_eq!(first.get_next_init_tick_index(0, 64, false), Ok(None));
}

#[test]
fn search_fails_where_it_does_not_start_in_the_array() {
    let array = array_with(0, 64, &[128]);
    assert_eq!(array.get_next_init_tick_index(-1, 64, true), Err(ErrorCode::InvalidTickArraySequence));
    assert_eq!(array.get_next_init_tick_index(5632, 64, true), Err(ErrorCode::InvalidTickArraySequence));
    assert_eq!(array.get_next_init_tick_index(-65, 64, false), Err(ErrorCode::InvalidTickArraySequence));
    assert_eq!(array.get_next_init_tick_index(5568, 64, false), Err(ErrorCode::InvalidTickArraySequence));
    assert_eq!(array.get_next_init_tick_index(0, 0, false), Err(ErrorCode::InvalidTickSpacing));
    let beyond = TickArray { start_tick_index: MAX_TICK_INDEX + 1, ticks: [Tick::new(); 88] };
    assert_eq!(
        beyond.get_next_init_tick_index(MAX_TICK_INDEX + 1, 64, true),
        Err(ErrorCode::InvalidTickArraySequence)
    );
}

#[test]
fn a_scan_downward_meets_every_initialized_tick_once_in_falling_order() {
    let spacing = 64;
    let mut array = TickArray::initialize(0, spacing).unwrap();
    for offset in 0..TICK_ARRAY_SIZE {
        array.update_tick(offset * 64, spacing, &initialized(1)).unwrap();
    }
    let mut from = 88 * 64 - 1;
    let mut met = Vec::new();
    while let Some(tick) = array.get_next_init_tick_index(from, spacing, true).unwrap() {
        met.push(tick);
        if tick == 0 {
            break;
        }
        from = tick - 1;
    }
    let expected: Vec<i32> = (0..88).rev().map(|offset| offset * 64).collect();
    assert_eq!(met, expected);
}

#[test]
fn a_scan_upward_meets_every_initialized_tick_once_in_rising_order() {
    let spacing = 64;
    let ticks = [0, 64, 640, 1280, 87 * 64];
    let array = array_with(0, spacing, &ticks);
    let mut from = -1;
    let mut met = Vec::new();
    while let Some(tick) = array.get_next_init_tick_index(from, spacing, false).unwrap() {
        met.push(tick);
        from = tick;
        if tick == 87 * 64 {
            break;
        }
    }
    assert_eq!(met, ticks.to_vec());
}

#[test]
fn arrays_at_the_ends_of_the_range() {
    let min = TickArray::initialize(-444928, 64).unwrap();
    assert!(min.is_min_tick_array());
    assert!(!min.is_max_tick_array(64));
    let max = TickArray::initialize(439296, 64).unwrap();
    assert!(max.is_max_tick_array(64));
    assert!(!max.is_min_tick_array());
    let middle = TickArray::initialize(0, 64).unwrap();
    assert!(!middle.is_min_tick_array());
    assert!(!middle.is_max_tick_array(64));
}

#[test]
fn search_range_is_one_array_wide() {
    let array = TickArray::initialize(0, 64).unwrap();
    assert!(array.in_search_range(0, 64, false));
    assert!(array.in_search_range(5631, 64, false));
    assert!(!array.in_search_range(5632, 64, false));
    assert!(!array.in_search_range(-1, 64, false));
    assert!(array.in_search_range(-64, 64, true));
    assert!(!array.in_search_range(-65, 64, true));
    assert!(array.in_search_range(5567, 64, true));
    assert!(!array.in_search_range(5568, 64, true));
    assert!(array.check_in_array_bounds(0, 64));
    assert!(!array.check_in_array_bounds(-1, 64));
}
