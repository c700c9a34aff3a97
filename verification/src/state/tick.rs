use crate::errors::ErrorCode;
use crate::math::tick_math::{MAX_TICK_INDEX, MIN_TICK_INDEX};
use vstd::arithmetic::div_mod::{
    lemma_fundamental_div_mod, lemma_fundamental_div_mod_converse, lemma_mod_bound,
    lemma_mod_multiples_basic,
};
use vstd::prelude::*;

verus! {

/// The number of ticks in a tick array.
pub const TICK_ARRAY_SIZE: i32 = 88;

/// The number of ticks in a tick array, as a length.
pub const TICK_ARRAY_SIZE_USIZE: usize = 88;

/// The number of reward trackers of a pool.
pub const NUM_REWARDS: usize = 3;

/// A price point at which liquidity may start or stop being active.
#[derive(Clone, Copy, Debug, PartialEq, Eq)]
pub struct Tick {
    /// Whether any position refers to this tick.
    pub initialized: bool,
    /// The liquidity that becomes active when the price crosses this tick upward.
    pub liquidity_net: i128,
    /// The liquidity of all positions that refer to this tick.
    pub liquidity_gross: u128,
    /// The fee growth of token A on the side of this tick away from the current price.
    pub fee_growth_outside_a: u128,
    /// The fee growth of token B on the side of this tick away from the current price.
    pub fee_growth_outside_b: u128,
    /// The growth of each reward on the side of this tick away from the current price.
    pub reward_growths_outside: [u128; 3],
}

/// The new contents of a tick.
#[derive(Clone, Copy, Debug, PartialEq, Eq)]
pub struct TickUpdate {
    pub initialized: bool,
    pub liquidity_net: i128,
    pub liquidity_gross: u128,
    pub fee_growth_outside_a: u128,
    pub fee_growth_outside_b: u128,
    pub reward_growths_outside: [u128; 3],
}

impl TickUpdate {
    /// The tick that this update writes.
    pub open spec fn as_tick(self) -> Tick {
        Tick {
            initialized: self.initialized,
            liquidity_net: self.liquidity_net,
            liquidity_gross: self.liquidity_gross,
            fee_growth_outside_a: self.fee_growth_outside_a,
            fee_growth_outside_b: self.fee_growth_outside_b,
            reward_growths_outside: self.reward_growths_outside,
        }
    }

    /// The update that leaves `tick` as it is.
    pub fn from(tick: &Tick) -> (r: TickUpdate)
        ensures
            r.as_tick() == *tick,
    {
        TickUpdate {
            initialized: tick.initialized,
            liquidity_net: tick.liquidity_net,
            liquidity_gross: tick.liquidity_gross,
            fee_growth_outside_a: tick.fee_growth_outside_a,
            fee_growth_outside_b: tick.fee_growth_outside_b,
            reward_growths_outside: tick.reward_growths_outside,
        }
    }
}

/// The width of a tick array in tick indexes.
pub open spec fn ticks_in_array(tick_spacing: u16) -> int {
    TICK_ARRAY_SIZE * tick_spacing
}

/// Whether a tick index lies within the supported range and on the pool's grid.
pub open spec fn usable_tick(tick_index: int, tick_spacing: u16) -> bool {
    &&& tick_spacing != 0
    &&& MIN_TICK_INDEX <= tick_index <= MAX_TICK_INDEX
    &&& tick_index % (tick_spacing as int) == 0
}

/// Whether a tick array may start at `tick_index`: at a multiple of the array's width
/// within the supported range, or, for the array that holds the smallest tick, at the last
/// such multiple below the range.
pub open spec fn valid_start_tick(tick_index: int, tick_spacing: u16) -> bool {
    &&& tick_spacing != 0
    &&& tick_index <= MAX_TICK_INDEX
    &&& tick_index % ticks_in_array(tick_spacing) == 0
    &&& tick_index + ticks_in_array(tick_spacing) > MIN_TICK_INDEX
}

impl Tick {
    /// The tick that no position refers to: not initialized, and zero throughout.
    pub open spec fn unused() -> Tick {
        Tick {
            initialized: false,
            liquidity_net: 0,
            liquidity_gross: 0,
            fee_growth_outside_a: 0,
            fee_growth_outside_b: 0,
            reward_growths_outside: [0u128, 0u128, 0u128],
        }
    }

    /// A tick that no position refers to.
    pub fn new() -> (r: Tick)
        ensures
            r == Tick::unused(),
    {
        let tick = Tick {
            initialized: false,
            liquidity_net: 0,
            liquidity_gross: 0,
            fee_growth_outside_a: 0,
            fee_growth_outside_b: 0,
            reward_growths_outside: [0, 0, 0],
        };
        assert(tick.reward_growths_outside@ =~= Tick::unused().reward_growths_outside@);
        tick
    }

    /// Overwrites the tick with the contents of `update`.
    pub fn update(&mut self, update: &TickUpdate)
        ensures
            *final(self) == update.as_tick(),
    {
        self.initialized = update.initialized;
        self.liquidity_net = update.liquidity_net;
        self.liquidity_gross = update.liquidity_gross;
        self.fee_growth_outside_a = update.fee_growth_outside_a;
        self.fee_growth_outside_b = update.fee_growth_outside_b;
        self.reward_growths_outside = update.reward_growths_outside;
    }

    /// Whether a tick index lies outside the supported range.
    pub fn check_is_out_of_bounds(tick_index: i32) -> (r: bool)
        ensures
            r == (tick_index > MAX_TICK_INDEX || tick_index < MIN_TICK_INDEX),
    {
        tick_index > MAX_TICK_INDEX || tick_index < MIN_TICK_INDEX
    }

    /// Whether a tick array of a pool with this spacing may start at `tick_index`.
    pub fn check_is_valid_start_tick(tick_index: i32, tick_spacing: u16) -> (r: bool)
        ensures
            r == valid_start_tick(tick_index as int, tick_spacing),
    {
        if tick_spacing == 0 || tick_index > MAX_TICK_INDEX {
            return false;
        }
        let width: i64 = 88 * (tick_spacing as i64);
        if tick_index as i64 + width <= MIN_TICK_INDEX as i64 {
            return false;
        }
        is_multiple(tick_index as i64, width)
    }

    /// Whether a tick index lies within the supported range and on the pool's grid.
    pub fn check_is_usable_tick(tick_index: i32, tick_spacing: u16) -> (r: bool)
        ensures
            r == usable_tick(tick_index as int, tick_spacing),
    {
        if tick_spacing == 0 || Tick::check_is_out_of_bounds(tick_index) {
            return false;
        }
        is_multiple(tick_index as i64, tick_spacing as i64)
    }
}

/// A fixed-size run of ticks: the tick at offset `i` has the index
/// `start_tick_index + i * tick_spacing`.
#[derive(Clone, Copy, Debug, PartialEq, Eq)]
pub struct TickArray {
    /// The tick index of the first tick.
    pub start_tick_index: i32,
    /// The ticks, by offset.
    pub ticks: [Tick; 88],
}

impl TickArray {
    /// The offset of the last tick of the array whose index is at most `tick_index`;
    /// negative below the array, `TICK_ARRAY_SIZE` or more above it.
    pub open spec fn floor_offset(self, tick_index: int, tick_spacing: u16) -> int {
        (tick_index - self.start_tick_index) / (tick_spacing as int)
    }

    /// The tick index of the tick at `offset`.
    pub open spec fn tick_index_at(self, offset: int, tick_spacing: u16) -> int {
        self.start_tick_index + offset * tick_spacing
    }

    /// The array with `tick` at `offset`.
    pub open spec fn with_tick(self, offset: int, tick: Tick) -> TickArray {
        TickArray {
            start_tick_index: self.start_tick_index,
            ticks: vstd::array::spec_array_update(self.ticks, offset, tick),
        }
    }

    /// Whether `tick_index` lies in the array's range, or, where `shifted`, in that range
    /// moved down by one tick spacing.
    pub open spec fn search_range(self, tick_index: int, tick_spacing: u16, shifted: bool) -> bool {
        let shift: int = if shifted {
            tick_spacing as int
        } else {
            0
        };
        self.start_tick_index - shift <= tick_index < self.start_tick_index + ticks_in_array(
            tick_spacing,
        ) - shift
    }

    /// Whether the array holds a tick with this index.
    pub open spec fn holds_tick(self, tick_index: int, tick_spacing: u16) -> bool {
        &&& tick_spacing != 0
        &&& self.search_range(tick_index, tick_spacing, false)
        &&& tick_index % (tick_spacing as int) == 0
    }

    /// The greatest offset of an initialized tick that is at most `offset`, or `-1`.
    pub open spec fn next_init_offset_down(self, offset: int) -> int
        decreases offset + 1,
    {
        if offset < 0 {
            -1
        } else if offset < TICK_ARRAY_SIZE && self.ticks@[offset].initialized {
            offset
        } else {
            self.next_init_offset_down(offset - 1)
        }
    }

    /// The smallest offset of an initialized tick that is at least `offset`, or
    /// `TICK_ARRAY_SIZE`.
    pub open spec fn next_init_offset_up(self, offset: int) -> int
        decreases TICK_ARRAY_SIZE - offset,
    {
        if offset >= TICK_ARRAY_SIZE {
            TICK_ARRAY_SIZE as int
        } else if offset >= 0 && self.ticks@[offset].initialized {
            offset
        } else {
            self.next_init_offset_up(offset + 1)
        }
    }

    /// The initialized tick of the array that a search from `tick_index` meets first:
    /// towards smaller indexes and starting at `tick_index` itself where `a_to_b`,
    /// towards greater indexes and starting after `tick_index` otherwise.
    pub open spec fn next_init_tick(self, tick_index: int, tick_spacing: u16, a_to_b: bool) -> Option<
        i32,
    > {
        let from = self.floor_offset(tick_index, tick_spacing);
        let found = if a_to_b {
            self.next_init_offset_down(from)
        } else {
            self.next_init_offset_up(from + 1)
        };
        if 0 <= found < TICK_ARRAY_SIZE {
            Some(self.tick_index_at(found, tick_spacing) as i32)
        } else {
            None
        }
    }

    /// An array of uninitialized ticks that starts at `start_tick_index`.
    ///
    /// Fails with `InvalidStartTick` where no array of a pool with this spacing may start
    /// there.
    pub fn initialize(start_tick_index: i32, tick_spacing: u16) -> (r: Result<TickArray, ErrorCode>)
        ensures
            !valid_start_tick(start_tick_index as int, tick_spacing) ==> r == Err::<
                TickArray,
                ErrorCode,
            >(ErrorCode::InvalidStartTick),
            valid_start_tick(start_tick_index as int, tick_spacing) ==> r is Ok,
            r matches Ok(array) ==> array.start_tick_index == start_tick_index && forall|i: int|
                0 <= i < TICK_ARRAY_SIZE ==> #[trigger] array.ticks@[i] == Tick::unused(),
    {
        if !Tick::check_is_valid_start_tick(start_tick_index, tick_spacing) {
            return Err(ErrorCode::InvalidStartTick);
        }
        Ok(TickArray { start_tick_index, ticks: [Tick::new();88] })
    }

    /// Whether `tick_index` lies in the array's range, or, where `shifted`, in that range
    /// moved down by one tick spacing.
    pub fn in_search_range(&self, tick_index: i32, tick_spacing: u16, shifted: bool) -> (r: bool)
        ensures
            r == self.search_range(tick_index as int, tick_spacing, shifted),
    {
        let mut lower: i64 = self.start_tick_index as i64;
        let mut upper: i64 = self.start_tick_index as i64 + 88 * (tick_spacing as i64);
        if shifted {
            lower = lower - tick_spacing as i64;
            upper = upper - tick_spacing as i64;
        }
        tick_index as i64 >= lower && (tick_index as i64) < upper
    }

    /// Whether `tick_index` lies in the array's range.
    pub fn check_in_array_bounds(&self, tick_index: i32, tick_spacing: u16) -> (r: bool)
        ensures
            r == self.search_range(tick_index as int, tick_spacing, false),
    {
        self.in_search_range(tick_index, tick_spacing, false)
    }

    /// Whether the array reaches down to the smallest supported tick.
    pub fn is_min_tick_array(&self) -> (r: bool)
        ensures
            r == (self.start_tick_index <= MIN_TICK_INDEX),
    {
        self.start_tick_index <= MIN_TICK_INDEX
    }

    /// Whether the array reaches up to the largest supported tick.
    pub fn is_max_tick_array(&self, tick_spacing: u16) -> (r: bool)
        ensures
            r == (self.start_tick_index + ticks_in_array(tick_spacing) > MAX_TICK_INDEX),
    {
        self.start_tick_index as i64 + 88 * (tick_spacing as i64) > MAX_TICK_INDEX as i64
    }

    /// The offset of the tick with index `tick_index`.
    ///
    /// Fails with `InvalidTickSpacing` on a zero spacing, and with `TickNotFound` where
    /// `tick_index` lies outside the array's range or is no multiple of the spacing.
    pub fn tick_offset(&self, tick_index: i32, tick_spacing: u16) -> (r: Result<isize, ErrorCode>)
        ensures
            tick_spacing == 0 ==> r == Err::<isize, ErrorCode>(ErrorCode::InvalidTickSpacing),
            tick_spacing != 0 && !self.holds_tick(tick_index as int, tick_spacing) ==> r == Err::<
                isize,
                ErrorCode,
            >(ErrorCode::TickNotFound),
            self.holds_tick(tick_index as int, tick_spacing) ==> r == Ok::<isize, ErrorCode>(
                self.floor_offset(tick_index as int, tick_spacing) as isize,
            ) && 0 <= self.floor_offset(tick_index as int, tick_spacing) < TICK_ARRAY_SIZE,
    {
        if tick_spacing == 0 {
            return Err(ErrorCode::InvalidTickSpacing);
        }
        if !self.in_search_range(tick_index, tick_spacing, false) || !is_multiple(
            tick_index as i64,
            tick_spacing as i64,
        ) {
            return Err(ErrorCode::TickNotFound);
        }
        let offset: i64 = self.search_offset(tick_index, tick_spacing);
        Ok(offset as isize)
    }

    /// The floor offset of a tick index within one array width of the array.
    fn search_offset(&self, tick_index: i32, tick_spacing: u16) -> (r: i64)
        requires
            tick_spacing != 0,
            self.start_tick_index - tick_spacing <= tick_index < self.start_tick_index
                + ticks_in_array(tick_spacing),
        ensures
            r == self.floor_offset(tick_index as int, tick_spacing),
            -1 <= r < TICK_ARRAY_SIZE,
    {
        let distance: i64 = tick_index as i64 - self.start_tick_index as i64;
        proof {
            lemma_offset_bounds(distance as int, tick_spacing as int);
        }
        if distance < 0 {
            -1
        } else {
            distance / (tick_spacing as i64)
        }
    }

    /// The tick with index `tick_index`.
    ///
    /// Fails as `tick_offset` does.
    pub fn get_tick(&self, tick_index: i32, tick_spacing: u16) -> (r: Result<&Tick, ErrorCode>)
        ensures
            tick_spacing == 0 ==> r == Err::<&Tick, ErrorCode>(ErrorCode::InvalidTickSpacing),
            tick_spacing != 0 && !self.holds_tick(tick_index as int, tick_spacing) ==> r == Err::<
                &Tick,
                ErrorCode,
            >(ErrorCode::TickNotFound),
            self.holds_tick(tick_index as int, tick_spacing) ==> r == Ok::<&Tick, ErrorCode>(
                &self.ticks@[self.floor_offset(tick_index as int, tick_spacing)],
            ),
    {
        match self.tick_offset(tick_index, tick_spacing) {
            Ok(offset) => Ok(&self.ticks[offset as usize]),
            Err(e) => Err(e),
        }
    }

    /// Overwrites the tick with index `tick_index` with the contents of `update`, and
    /// leaves every other tick as it is.
    ///
    /// Fails as `tick_offset` does, and then changes nothing.
    pub fn update_tick(&mut self, tick_index: i32, tick_spacing: u16, update: &TickUpdate) -> (r:
        Result<(), ErrorCode>)
        ensures
            final(self).start_tick_index == old(self).start_tick_index,
            tick_spacing == 0 ==> r == Err::<(), ErrorCode>(ErrorCode::InvalidTickSpacing),
            tick_spacing != 0 && !old(self).holds_tick(tick_index as int, tick_spacing) ==> r
                == Err::<(), ErrorCode>(ErrorCode::TickNotFound),
            r is Err ==> *final(self) == *old(self),
            old(self).holds_tick(tick_index as int, tick_spacing) ==> r is Ok && *final(self)
                == old(self).with_tick(
                old(self).floor_offset(tick_index as int, tick_spacing),
                update.as_tick(),
            ),
    {
        match self.tick_offset(tick_index, tick_spacing) {
            Ok(offset) => {
                let mut tick = self.ticks[offset as usize];
                tick.update(update);
                self.ticks[offset as usize] = tick;
                proof {
                    vstd::array::axiom_spec_array_update(
                        old(self).ticks,
                        offset as int,
                        update.as_tick(),
                    );
                    assert(self.ticks@ =~= old(self).with_tick(
                        offset as int,
                        update.as_tick(),
                    ).ticks@);
                }
                Ok(())
            },
            Err(e) => Err(e),
        }
    }

    /// The index of the initialized tick that a search from `tick_index` meets first in
    /// this array, if there is one: towards smaller indexes and starting at `tick_index`
    /// itself where `a_to_b`, towards greater indexes and starting after `tick_index`
    /// otherwise.
    ///
    /// Fails with `InvalidTickSpacing` on a zero spacing, and with
    /// `InvalidTickArraySequence` where the array starts above the largest supported tick
    /// or the search does not start within it. An array that starts above the largest
    /// supported tick holds no supported tick, so that no swap can walk it; and only in
    /// such an array could the index of a tick leave the 32 bits in which tick indexes are
    /// held.
    #[verifier::loop_isolation(false)]
    pub fn get_next_init_tick_index(&self, tick_index: i32, tick_spacing: u16, a_to_b: bool) -> (r:
        Result<Option<i32>, ErrorCode>)
        ensures
            tick_spacing == 0 ==> r == Err::<Option<i32>, ErrorCode>(
                ErrorCode::InvalidTickSpacing,
            ),
            tick_spacing != 0 && !self.searchable_from(tick_index as int, tick_spacing, a_to_b)
                ==> r == Err::<Option<i32>, ErrorCode>(ErrorCode::InvalidTickArraySequence),
            tick_spacing != 0 && self.searchable_from(tick_index as int, tick_spacing, a_to_b)
                ==> r == Ok::<Option<i32>, ErrorCode>(
                self.next_init_tick(tick_index as int, tick_spacing, a_to_b),
            ),
    {
        if tick_spacing == 0 {
            return Err(ErrorCode::InvalidTickSpacing);
        }
        if self.start_tick_index > MAX_TICK_INDEX || !self.in_search_range(
            tick_index,
            tick_spacing,
            !a_to_b,
        ) {
            return Err(ErrorCode::InvalidTickArraySequence);
        }
        let from: i64 = self.search_offset(tick_index, tick_spacing);
        let mut curr_offset: i64 = if a_to_b {
            from
        } else {
            from + 1
        };
        while curr_offset >= 0 && curr_offset < 88
            invariant
                -1 <= curr_offset <= TICK_ARRAY_SIZE,
                a_to_b ==> curr_offset < TICK_ARRAY_SIZE,
                !a_to_b ==> curr_offset >= 0,
                a_to_b ==> self.next_init_offset_down(curr_offset as int)
                    == self.next_init_offset_down(from as int),
                !a_to_b ==> self.next_init_offset_up(curr_offset as int)
                    == self.next_init_offset_up(from + 1),
                tick_spacing != 0,
                self.start_tick_index <= MAX_TICK_INDEX,
            decreases
                    if a_to_b {
                        curr_offset + 1
                    } else {
                        TICK_ARRAY_SIZE - curr_offset
                    },
        {
            if self.ticks[curr_offset as usize].initialized {
                assert(0 <= curr_offset * tick_spacing <= 87 * 65535) by (nonlinear_arith)
                    requires
                        0 <= curr_offset <= 87,
                        0 <= tick_spacing <= 65535,
                ;
                let found: i64 = self.start_tick_index as i64 + curr_offset * (tick_spacing as i64);
                return Ok(Some(found as i32));
            }
            curr_offset = if a_to_b {
                curr_offset - 1
            } else {
                curr_offset + 1
            };
        }
        assert(self.next_init_offset_down(-1) == -1);
        assert(self.next_init_offset_up(TICK_ARRAY_SIZE as int) == TICK_ARRAY_SIZE);
        Ok(None)
    }

    /// Whether a search for the next initialized tick may start at `tick_index`: it lies
    /// in the range of the array, moved down by one tick spacing for a search towards
    /// greater ticks, which starts after `tick_index`; and the array does not start above
    /// the largest supported tick, where it would hold no supported tick.
    pub open spec fn searchable_from(self, tick_index: int, tick_spacing: u16, a_to_b: bool) -> bool {
        &&& self.start_tick_index <= MAX_TICK_INDEX
        &&& self.search_range(tick_index, tick_spacing, !a_to_b)
    }
}

impl TickArray {
    /// The offsets of the initialized ticks that a scan towards smaller offsets meets
    /// from `offset` on, in the order in which it meets them: each search starts at the
    /// offset before the one that the last search has found.
    pub open spec fn scan_down(self, offset: int) -> Seq<int>
        decreases
                if offset < 0 {
                    0
                } else {
                    offset + 1
                },
    {
        let found = self.next_init_offset_down(offset);
        if found < 0 {
            Seq::empty()
        } else {
            proof {
                self.lemma_next_init_offset_down(offset);
            }
            seq![found] + self.scan_down(found - 1)
        }
    }

    /// The offsets of the initialized ticks that a scan towards greater offsets meets
    /// from `offset` on, in the order in which it meets them: each search starts at the
    /// offset after the one that the last search has found.
    pub open spec fn scan_up(self, offset: int) -> Seq<int>
        decreases
                if offset >= TICK_ARRAY_SIZE {
                    0
                } else {
                    TICK_ARRAY_SIZE - offset
                },
    {
        let found = self.next_init_offset_up(offset);
        if found >= TICK_ARRAY_SIZE {
            Seq::empty()
        } else {
            proof {
                self.lemma_next_init_offset_up(offset);
            }
            seq![found] + self.scan_up(found + 1)
        }
    }

    /// A search towards smaller offsets finds the nearest initialized tick: what it
    /// finds is initialized and not above its start, and no tick between the two is
    /// initialized.
    pub proof fn lemma_next_init_offset_down(self, offset: int)
        ensures
            -1 <= self.next_init_offset_down(offset) < TICK_ARRAY_SIZE,
            self.next_init_offset_down(offset) >= 0 ==> self.next_init_offset_down(offset)
                <= offset && self.ticks@[self.next_init_offset_down(offset)].initialized,
            forall|o: int|
                self.next_init_offset_down(offset) < o <= offset && 0 <= o < TICK_ARRAY_SIZE
                    ==> !(#[trigger] self.ticks@[o]).initialized,
        decreases offset + 1,
    {
        if offset >= 0 && !(offset < TICK_ARRAY_SIZE && self.ticks@[offset].initialized) {
            self.lemma_next_init_offset_down(offset - 1);
        }
    }

    /// A search towards greater offsets finds the nearest initialized tick: what it
    /// finds is initialized and not below its start, and no tick between the two is
    /// initialized.
    pub proof fn lemma_next_init_offset_up(self, offset: int)
        ensures
            0 <= self.next_init_offset_up(offset) <= TICK_ARRAY_SIZE,
            self.next_init_offset_up(offset) < TICK_ARRAY_SIZE ==> self.next_init_offset_up(
                offset,
            ) >= offset && self.ticks@[self.next_init_offset_up(offset)].initialized,
            forall|o: int|
                offset <= o < self.next_init_offset_up(offset) && 0 <= o < TICK_ARRAY_SIZE
                    ==> !(#[trigger] self.ticks@[o]).initialized,
        decreases TICK_ARRAY_SIZE - offset,
    {
        if offset < TICK_ARRAY_SIZE && !(offset >= 0 && self.ticks@[offset].initialized) {
            self.lemma_next_init_offset_up(offset + 1);
        }
    }

    /// A scan towards smaller offsets meets every initialized tick at or below its
    /// start once, in falling order, and nothing else.
    pub proof fn lemma_scan_down_exhaustive(self, offset: int)
        ensures
            forall|i: int|
                0 <= i < self.scan_down(offset).len() ==> 0 <= (#[trigger] self.scan_down(
                    offset,
                )[i]) < TICK_ARRAY_SIZE && self.scan_down(offset)[i] <= offset
                    && self.ticks@[self.scan_down(offset)[i]].initialized,
            forall|i: int, j: int|
                0 <= i < j < self.scan_down(offset).len() ==> (#[trigger] self.scan_down(
                    offset,
                )[i]) > (#[trigger] self.scan_down(offset)[j]),
            forall|o: int|
                0 <= o < TICK_ARRAY_SIZE && o <= offset && (#[trigger] self.ticks@[o]).initialized
                    ==> self.scan_down(offset).contains(o),
        decreases
                if offset < 0 {
                    0
                } else {
                    offset + 1
                },
    {
        let found = self.next_init_offset_down(offset);
        self.lemma_next_init_offset_down(offset);
        if found >= 0 {
            let rest = self.scan_down(found - 1);
            let all = self.scan_down(offset);
            self.lemma_scan_down_exhaustive(found - 1);
            assert(all == seq![found] + rest);
            assert(all[0] == found);
            assert forall|i: int| 1 <= i < all.len() implies all[i] == rest[i - 1] by {}
            assert forall|o: int|
                0 <= o < TICK_ARRAY_SIZE && o <= offset && (
                #[trigger] self.ticks@[o]).initialized implies all.contains(o) by {
                if o == found {
                    assert(all[0] == o);
                } else {
                    assert(rest.contains(o));
                    let i = choose|i: int| 0 <= i < rest.len() && rest[i] == o;
                    assert(all[i + 1] == o);
                }
            }
            assert forall|i: int, j: int| 0 <= i < j < all.len() implies (#[trigger] all[i]) > (
            #[trigger] all[j]) by {
                if i == 0 {
                    assert(all[j] == rest[j - 1]);
                } else {
                    assert(all[i] == rest[i - 1] && all[j] == rest[j - 1]);
                }
            }
        }
    }

    /// A scan towards greater offsets meets every initialized tick at or above its
    /// start once, in rising order, and nothing else.
    pub proof fn lemma_scan_up_exhaustive(self, offset: int)
        ensures
            forall|i: int|
                0 <= i < self.scan_up(offset).len() ==> 0 <= (#[trigger] self.scan_up(offset)[i])
                    < TICK_ARRAY_SIZE && self.scan_up(offset)[i] >= offset
                    && self.ticks@[self.scan_up(offset)[i]].initialized,
            forall|i: int, j: int|
                0 <= i < j < self.scan_up(offset).len() ==> (#[trigger] self.scan_up(offset)[i])
                    < (#[trigger] self.scan_up(offset)[j]),
            forall|o: int|
                0 <= o < TICK_ARRAY_SIZE && o >= offset && (#[trigger] self.ticks@[o]).initialized
                    ==> self.scan_up(offset).contains(o),
        decreases
                if offset >= TICK_ARRAY_SIZE {
                    0
                } else {
                    TICK_ARRAY_SIZE - offset
                },
    {
        let found = self.next_init_offset_up(offset);
        self.lemma_next_init_offset_up(offset);
        if found < TICK_ARRAY_SIZE {
            let rest = self.scan_up(found + 1);
            let all = self.scan_up(offset);
            self.lemma_scan_up_exhaustive(found + 1);
            assert(all == seq![found] + rest);
            assert(all[0] == found);
            assert forall|i: int| 1 <= i < all.len() implies all[i] == rest[i - 1] by {}
            assert forall|o: int|
                0 <= o < TICK_ARRAY_SIZE && o >= offset && (
                #[trigger] self.ticks@[o]).initialized implies all.contains(o) by {
                if o == found {
                    assert(all[0] == o);
                } else {
                    assert(rest.contains(o));
                    let i = choose|i: int| 0 <= i < rest.len() && rest[i] == o;
                    assert(all[i + 1] == o);
                }
            }
            assert forall|i: int, j: int| 0 <= i < j < all.len() implies (#[trigger] all[i]) < (
            #[trigger] all[j]) by {
                if i == 0 {
                    assert(all[j] == rest[j - 1]);
                } else {
                    assert(all[i] == rest[i - 1] && all[j] == rest[j - 1]);
                }
            }
        }
    }

    /// Where a search has found the tick at `offset`, the search that goes on from it
    /// starts at the next offset: towards smaller ticks it starts at the tick index
    /// before the one found, which lies at the offset before; towards greater ticks it
    /// starts after the tick index found, which lies at `offset` itself.
    pub proof fn lemma_scan_goes_on(self, offset: int, tick_spacing: u16)
        requires
            tick_spacing != 0,
        ensures
            self.floor_offset(self.tick_index_at(offset, tick_spacing), tick_spacing) == offset,
            self.floor_offset(self.tick_index_at(offset, tick_spacing) - 1, tick_spacing) == offset
                - 1,
    {
        let spacing = tick_spacing as int;
        assert(offset * spacing - 1 == (offset - 1) * spacing + (spacing - 1))
            by (nonlinear_arith);
        lemma_fundamental_div_mod_converse(offset * spacing, spacing, offset, 0);
        lemma_fundamental_div_mod_converse(
            offset * spacing - 1,
            spacing,
            offset - 1,
            spacing - 1,
        );
    }
}

impl TickArray {
    /// The number of initialized ticks at the offsets from zero up to `offset`.
    pub open spec fn count_initialized_down(self, offset: int) -> nat
        decreases
                if offset < 0 {
                    0
                } else {
                    offset + 1
                },
    {
        if offset < 0 {
            0
        } else if offset < TICK_ARRAY_SIZE && self.ticks@[offset].initialized {
            self.count_initialized_down(offset - 1) + 1
        } else {
            self.count_initialized_down(offset - 1)
        }
    }

    /// The number of initialized ticks at the offsets from `offset` on.
    pub open spec fn count_initialized_up(self, offset: int) -> nat
        decreases
                if offset >= TICK_ARRAY_SIZE {
                    0
                } else {
                    TICK_ARRAY_SIZE - offset
                },
    {
        if offset >= TICK_ARRAY_SIZE {
            0
        } else if offset >= 0 && self.ticks@[offset].initialized {
            self.count_initialized_up(offset + 1) + 1
        } else {
            self.count_initialized_up(offset + 1)
        }
    }

    /// The number of initialized ticks of the array.
    pub open spec fn count_initialized(self) -> nat {
        self.count_initialized_down(TICK_ARRAY_SIZE - 1)
    }

    /// Whether the same ticks are initialized in both arrays.
    pub open spec fn same_initialized(self, other: TickArray) -> bool {
        forall|o: int|
            0 <= o < TICK_ARRAY_SIZE ==> (#[trigger] self.ticks@[o]).initialized
                == other.ticks@[o].initialized
    }

    /// The count up to an offset grows with the offset.
    pub proof fn lemma_count_down_monotonic(self, lower: int, upper: int)
        requires
            lower <= upper,
        ensures
            self.count_initialized_down(lower) <= self.count_initialized_down(upper),
        decreases upper - lower,
    {
        if lower < upper {
            self.lemma_count_down_monotonic(lower, upper - 1);
        }
    }

    /// The count from an offset on falls as the offset grows.
    pub proof fn lemma_count_up_monotonic(self, lower: int, upper: int)
        requires
            lower <= upper,
        ensures
            self.count_initialized_up(lower) >= self.count_initialized_up(upper),
        decreases upper - lower,
    {
        if lower < upper {
            self.lemma_count_up_monotonic(lower + 1, upper);
        }
    }

    /// The ticks below an offset and those from it on are all the ticks of the array.
    pub proof fn lemma_count_split(self, offset: int)
        ensures
            self.count_initialized_down(offset - 1) + self.count_initialized_up(offset)
                == self.count_initialized(),
        decreases
                if offset >= TICK_ARRAY_SIZE {
                    offset - TICK_ARRAY_SIZE
                } else {
                    TICK_ARRAY_SIZE - offset
                },
    {
        if offset > TICK_ARRAY_SIZE {
            self.lemma_count_split(offset - 1);
        } else if offset < TICK_ARRAY_SIZE {
            self.lemma_count_split(offset + 1);
        }
    }

    /// Below the tick that a search towards smaller offsets finds lies one initialized
    /// tick less than at and below the start of the search.
    pub proof fn lemma_found_counts_down(self, offset: int)
        ensures
            self.next_init_offset_down(offset) >= 0 ==> self.count_initialized_down(
                self.next_init_offset_down(offset) - 1,
            ) + 1 <= self.count_initialized_down(offset),
    {
        let found = self.next_init_offset_down(offset);
        self.lemma_next_init_offset_down(offset);
        if found >= 0 {
            self.lemma_count_down_monotonic(found, offset);
        }
    }

    /// Above the tick that a search towards greater offsets finds lies one initialized
    /// tick less than at and above the start of the search.
    pub proof fn lemma_found_counts_up(self, offset: int)
        ensures
            self.next_init_offset_up(offset) < TICK_ARRAY_SIZE ==> self.count_initialized_up(
                self.next_init_offset_up(offset) + 1,
            ) + 1 <= self.count_initialized_up(offset),
    {
        let found = self.next_init_offset_up(offset);
        self.lemma_next_init_offset_up(offset);
        if found < TICK_ARRAY_SIZE {
            self.lemma_count_up_monotonic(offset, found);
        }
    }

    /// Arrays in which the same ticks are initialized count the same.
    pub proof fn lemma_same_initialized_counts(self, other: TickArray, offset: int)
        requires
            self.same_initialized(other),
        ensures
            self.count_initialized_down(offset) == other.count_initialized_down(offset),
            self.count_initialized_up(offset) == other.count_initialized_up(offset),
    {
        self.lemma_same_initialized_down(other, offset);
        self.lemma_same_initialized_up(other, offset);
    }

    proof fn lemma_same_initialized_down(self, other: TickArray, offset: int)
        requires
            self.same_initialized(other),
        ensures
            self.count_initialized_down(offset) == other.count_initialized_down(offset),
        decreases
                if offset < 0 {
                    0
                } else {
                    offset + 1
                },
    {
        if offset >= 0 {
            self.lemma_same_initialized_down(other, offset - 1);
        }
    }

    proof fn lemma_same_initialized_up(self, other: TickArray, offset: int)
        requires
            self.same_initialized(other),
        ensures
            self.count_initialized_up(offset) == other.count_initialized_up(offset),
        decreases
                if offset >= TICK_ARRAY_SIZE {
                    0
                } else {
                    TICK_ARRAY_SIZE - offset
                },
    {
        if offset < TICK_ARRAY_SIZE {
            self.lemma_same_initialized_up(other, offset + 1);
        }
    }
}

/// The tick with index `tick_index` in `array`, or the error with which reading it fails.
pub open spec fn tick_in(array: TickArray, tick_index: i32, tick_spacing: u16) -> Result<
    Tick,
    ErrorCode,
> {
    if tick_spacing == 0 {
        Err(ErrorCode::InvalidTickSpacing)
    } else if !array.holds_tick(tick_index as int, tick_spacing) {
        Err(ErrorCode::TickNotFound)
    } else {
        Ok(array.ticks@[array.floor_offset(tick_index as int, tick_spacing)])
    }
}

impl TickArray {
    /// Whether every tick of the array is initialized.
    pub open spec fn all_initialized(self) -> bool {
        forall|o: int| 0 <= o < TICK_ARRAY_SIZE ==> (#[trigger] self.ticks@[o]).initialized
    }

    /// Whether no tick of the array is initialized.
    pub open spec fn none_initialized(self) -> bool {
        forall|o: int| 0 <= o < TICK_ARRAY_SIZE ==> !(#[trigger] self.ticks@[o]).initialized
    }

    /// The tick at an offset lies at or below a tick index exactly where the offset is at
    /// most the floor offset of that index.
    pub proof fn lemma_offset_order(self, offset: int, tick_index: int, tick_spacing: u16)
        requires
            tick_spacing != 0,
        ensures
            self.tick_index_at(offset, tick_spacing) <= tick_index <==> offset
                <= self.floor_offset(tick_index, tick_spacing),
    {
        let spacing = tick_spacing as int;
        let distance = tick_index - self.start_tick_index;
        lemma_fundamental_div_mod(distance, spacing);
        lemma_mod_bound(distance, spacing);
        let q = distance / spacing;
        let m = distance % spacing;
        assert(offset * spacing <= distance <==> offset <= q) by (nonlinear_arith)
            requires
                distance == spacing * q + m,
                0 <= m < spacing,
        ;
    }

    /// In an array without an initialized tick no search finds one.
    pub proof fn lemma_none_initialized(self, offset: int)
        requires
            self.none_initialized(),
        ensures
            self.next_init_offset_down(offset) == -1,
            self.next_init_offset_up(offset) == TICK_ARRAY_SIZE,
    {
        self.lemma_next_init_offset_down(offset);
        self.lemma_next_init_offset_up(offset);
    }
}

/// The floor quotient of a distance by the tick spacing lies between the bounds that the
/// distance has in units of the spacing.
pub proof fn lemma_offset_bounds(distance: int, tick_spacing: int)
    requires
        tick_spacing > 0,
        -tick_spacing <= distance < TICK_ARRAY_SIZE * tick_spacing,
    ensures
        -1 <= distance / tick_spacing < TICK_ARRAY_SIZE,
        distance < 0 <==> distance / tick_spacing == -1,
{
    lemma_fundamental_div_mod(distance, tick_spacing);
    let q = distance / tick_spacing;
    let m = distance % tick_spacing;
    assert(0 <= m < tick_spacing) by {
        lemma_mod_bound(distance, tick_spacing);
    }
    assert(-1 <= q < 88 && (distance < 0 <==> q == -1)) by (nonlinear_arith)
        requires
            distance == tick_spacing * q + m,
            0 <= m < tick_spacing,
            -tick_spacing <= distance < 88 * tick_spacing,
    ;
}

/// Whether `unit` divides `value`.
fn is_multiple(value: i64, unit: i64) -> (r: bool)
    requires
        unit > 0,
        -0x1_0000_0000 <= value <= 0x1_0000_0000,
    ensures
        r == (value % unit == 0),
{
    if value >= 0 {
        value % unit == 0
    } else {
        let magnitude: i64 = -value;
        proof {
            lemma_negation_keeps_multiples(value as int, unit as int);
        }
        magnitude % unit == 0
    }
}

/// A number is a multiple of `unit` exactly where its negation is.
pub proof fn lemma_negation_keeps_multiples(value: int, unit: int)
    requires
        unit > 0,
    ensures
        (value % unit == 0) == ((-value) % unit == 0),
{
    if value % unit == 0 {
        lemma_negated_multiple(value, unit);
    }
    if (-value) % unit == 0 {
        lemma_negated_multiple(-value, unit);
    }
}

proof fn lemma_negated_multiple(value: int, unit: int)
    requires
        unit > 0,
        value % unit == 0,
    ensures
        (-value) % unit == 0,
{
    let q = value / unit;
    lemma_fundamental_div_mod(value, unit);
    assert(-value == (-q) * unit) by (nonlinear_arith)
        requires
            value == unit * q,
    ;
    lemma_mod_multiples_basic(-q, unit);
}

} // verus!
