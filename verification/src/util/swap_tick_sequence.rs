use crate::errors::ErrorCode;
use crate::math::tick_math::{MAX_TICK_INDEX, MIN_TICK_INDEX};
use crate::state::tick::{ticks_in_array, Tick, TickArray, TickUpdate, TICK_ARRAY_SIZE};
use vstd::prelude::*;

verus! {

/// Up to three tick arrays in the order in which a swap walks them: the first holds the
/// current price, each later one continues in the direction of the trade.
pub struct SwapTickSequence {
    pub arrays: Vec<TickArray>,
}

/// The arrays that `SwapTickSequence::new` holds for its three arguments.
pub open spec fn loaded_arrays(
    ta0: TickArray,
    ta1: Option<TickArray>,
    ta2: Option<TickArray>,
) -> Seq<TickArray> {
    let first = seq![ta0];
    let second = match ta1 {
        Some(a) => first.push(a),
        None => first,
    };
    match ta2 {
        Some(a) => second.push(a),
        None => second,
    }
}

/// Where the traversal of `arrays` ends that starts in the array `array_index` at
/// `search_index`.
///
/// The array is asked for its next initialized tick. Where it has one, that is the
/// result. Where it has none, the result is the smallest or largest supported tick if the
/// array reaches it in the direction of the trade, else the array's own boundary tick if
/// it is the last one, else the result of the traversal that goes on in the next array
/// from its near boundary. Past the last array the traversal fails.
pub open spec fn next_initialized_tick(
    arrays: Seq<TickArray>,
    search_index: int,
    tick_spacing: u16,
    a_to_b: bool,
    array_index: int,
) -> Result<(usize, i32), ErrorCode>
    decreases arrays.len() - array_index,
{
    if array_index < 0 || array_index >= arrays.len() {
        Err(ErrorCode::TickArraySequenceInvalidIndex)
    } else if tick_spacing == 0 {
        Err(ErrorCode::InvalidTickSpacing)
    } else if !arrays[array_index].searchable_from(search_index, tick_spacing, a_to_b) {
        Err(ErrorCode::InvalidTickArraySequence)
    } else {
        let array = arrays[array_index];
        let last_tick = array.start_tick_index + ticks_in_array(tick_spacing) - 1;
        match array.next_init_tick(search_index, tick_spacing, a_to_b) {
            Some(next_index) => Ok((array_index as usize, next_index)),
            None => {
                if a_to_b && array.start_tick_index <= MIN_TICK_INDEX {
                    Ok((array_index as usize, MIN_TICK_INDEX))
                } else if !a_to_b && last_tick >= MAX_TICK_INDEX {
                    Ok((array_index as usize, MAX_TICK_INDEX))
                } else if array_index + 1 == arrays.len() {
                    if a_to_b {
                        Ok((array_index as usize, array.start_tick_index))
                    } else {
                        Ok((array_index as usize, last_tick as i32))
                    }
                } else {
                    next_initialized_tick(
                        arrays,
                        if a_to_b {
                            array.start_tick_index - 1
                        } else {
                            last_tick
                        },
                        tick_spacing,
                        a_to_b,
                        array_index + 1,
                    )
                }
            },
        }
    }
}

/// A traversal ends in one of the arrays from the one in which it starts on.
pub proof fn lemma_next_initialized_tick_in_bounds(
    arrays: Seq<TickArray>,
    search_index: int,
    tick_spacing: u16,
    a_to_b: bool,
    array_index: int,
)
    requires
        arrays.len() <= usize::MAX,
    ensures
        next_initialized_tick(arrays, search_index, tick_spacing, a_to_b, array_index) matches Ok(
            found,
        ) ==> 0 <= array_index <= found.0 < arrays.len(),
    decreases arrays.len() - array_index,
{
    if 0 <= array_index < arrays.len() && tick_spacing != 0 && arrays[array_index].searchable_from(
        search_index,
        tick_spacing,
        a_to_b,
    ) {
        let array = arrays[array_index];
        let last_tick = array.start_tick_index + ticks_in_array(tick_spacing) - 1;
        if array.next_init_tick(search_index, tick_spacing, a_to_b) is None && !(a_to_b
            && array.start_tick_index <= MIN_TICK_INDEX) && !(!a_to_b && last_tick
            >= MAX_TICK_INDEX) && array_index + 1 != arrays.len() {
            lemma_next_initialized_tick_in_bounds(
                arrays,
                if a_to_b {
                    array.start_tick_index - 1
                } else {
                    last_tick
                },
                tick_spacing,
                a_to_b,
                array_index + 1,
            );
        }
    }
}

/// The offset of the initialized tick at which a traversal ends, in the array in which
/// it ends; `-1` where it ends at a tick that it has not found initialized, or fails.
pub open spec fn next_initialized_offset(
    arrays: Seq<TickArray>,
    search_index: int,
    tick_spacing: u16,
    a_to_b: bool,
    array_index: int,
) -> int
    decreases arrays.len() - array_index,
{
    if array_index < 0 || array_index >= arrays.len() || tick_spacing == 0
        || !arrays[array_index].searchable_from(search_index, tick_spacing, a_to_b) {
        -1
    } else {
        let array = arrays[array_index];
        let last_tick = array.start_tick_index + ticks_in_array(tick_spacing) - 1;
        let from = array.floor_offset(search_index, tick_spacing);
        let found = if a_to_b {
            array.next_init_offset_down(from)
        } else {
            array.next_init_offset_up(from + 1)
        };
        if 0 <= found < TICK_ARRAY_SIZE {
            found
        } else if (a_to_b && array.start_tick_index <= MIN_TICK_INDEX) || (!a_to_b && last_tick
            >= MAX_TICK_INDEX) || array_index + 1 == arrays.len() {
            -1
        } else {
            next_initialized_offset(
                arrays,
                if a_to_b {
                    array.start_tick_index - 1
                } else {
                    last_tick
                },
                tick_spacing,
                a_to_b,
                array_index + 1,
            )
        }
    }
}

/// The number of initialized ticks in the arrays from `array_index` on.
pub open spec fn initialized_from(arrays: Seq<TickArray>, array_index: int) -> nat
    decreases arrays.len() - array_index,
{
    if array_index < 0 || array_index >= arrays.len() {
        0
    } else {
        arrays[array_index].count_initialized() + initialized_from(arrays, array_index + 1)
    }
}

/// Later arrays hold no more initialized ticks than earlier ones and they together.
pub proof fn lemma_initialized_from_monotonic(arrays: Seq<TickArray>, earlier: int, later: int)
    requires
        0 <= earlier <= later,
    ensures
        initialized_from(arrays, later) <= initialized_from(arrays, earlier),
    decreases later - earlier,
{
    if earlier < later {
        lemma_initialized_from_monotonic(arrays, earlier + 1, later);
    }
}

/// Whether the same ticks are initialized in both sequences of arrays.
pub open spec fn same_initialized(arrays: Seq<TickArray>, others: Seq<TickArray>) -> bool {
    &&& arrays.len() == others.len()
    &&& forall|i: int| 0 <= i < arrays.len() ==> (#[trigger] arrays[i]).same_initialized(others[i])
}

/// Sequences in which the same ticks are initialized count the same.
pub proof fn lemma_same_initialized_from(
    arrays: Seq<TickArray>,
    others: Seq<TickArray>,
    array_index: int,
)
    requires
        same_initialized(arrays, others),
    ensures
        initialized_from(arrays, array_index) == initialized_from(others, array_index),
    decreases arrays.len() - array_index,
{
    if 0 <= array_index < arrays.len() {
        arrays[array_index].lemma_same_initialized_counts(
            others[array_index],
            TICK_ARRAY_SIZE - 1,
        );
        lemma_same_initialized_from(arrays, others, array_index + 1);
    }
}

/// Where a traversal ends.
///
/// It ends in one of the arrays from the one in which it starts on. Either it ends at
/// an initialized tick of that array, which is the nearest one to the start of the
/// search where the traversal has not left the array in which it started. Or it ends
/// at the smallest or largest supported tick, or at the boundary tick of the last
/// array.
pub proof fn lemma_next_initialized_tick_kinds(
    arrays: Seq<TickArray>,
    search_index: int,
    tick_spacing: u16,
    a_to_b: bool,
    array_index: int,
)
    requires
        arrays.len() <= usize::MAX,
        i32::MIN <= search_index <= i32::MAX,
    ensures
        next_initialized_tick(arrays, search_index, tick_spacing, a_to_b, array_index) matches Ok(
            found,
        ) ==> {
            let array = arrays[found.0 as int];
            let offset = next_initialized_offset(
                arrays,
                search_index,
                tick_spacing,
                a_to_b,
                array_index,
            );
            &&& 0 <= array_index <= found.0 < arrays.len()
            &&& tick_spacing != 0
            &&& array.start_tick_index <= MAX_TICK_INDEX
            &&& -1 <= offset < TICK_ARRAY_SIZE
            &&& offset >= 0 ==> {
                &&& array.ticks@[offset].initialized
                &&& found.1 == array.tick_index_at(offset, tick_spacing)
                &&& found.0 == array_index ==> offset == (if a_to_b {
                    array.next_init_offset_down(array.floor_offset(search_index, tick_spacing))
                } else {
                    array.next_init_offset_up(array.floor_offset(search_index, tick_spacing) + 1)
                })
            }
            &&& offset < 0 ==> {
                ||| a_to_b && found.1 == MIN_TICK_INDEX
                ||| !a_to_b && found.1 == MAX_TICK_INDEX
                ||| found.0 + 1 == arrays.len() && found.1 == (if a_to_b {
                    array.start_tick_index as int
                } else {
                    array.start_tick_index + ticks_in_array(tick_spacing) - 1
                })
            }
        },
    decreases arrays.len() - array_index,
{
    if 0 <= array_index < arrays.len() && tick_spacing != 0 && arrays[array_index].searchable_from(
        search_index,
        tick_spacing,
        a_to_b,
    ) {
        let array = arrays[array_index];
        let last_tick = array.start_tick_index + ticks_in_array(tick_spacing) - 1;
        let from = array.floor_offset(search_index, tick_spacing);
        let found = if a_to_b {
            array.next_init_offset_down(from)
        } else {
            array.next_init_offset_up(from + 1)
        };
        array.lemma_next_init_offset_down(from);
        array.lemma_next_init_offset_up(from + 1);
        if 0 <= found < TICK_ARRAY_SIZE {
            assert(0 <= found * tick_spacing <= 87 * 65535) by (nonlinear_arith)
                requires
                    0 <= found <= 87,
                    0 <= tick_spacing <= 65535,
            ;
        } else if !(a_to_b && array.start_tick_index <= MIN_TICK_INDEX) && !(!a_to_b && last_tick
            >= MAX_TICK_INDEX) && array_index + 1 != arrays.len() {
            lemma_next_initialized_tick_kinds(
                arrays,
                if a_to_b {
                    array.start_tick_index - 1
                } else {
                    last_tick
                },
                tick_spacing,
                a_to_b,
                array_index + 1,
            );
        }
    }
}

/// A traversal towards smaller ticks that starts within its first array, which holds an
/// initialized tick at or below the start, ends there at the greatest such tick: the tick
/// found is initialized and lies at or below the start, and no tick of the array between
/// it and the start is initialized.
///
/// The array must not start above the largest supported tick; the traversal fails in one
/// that does, for it holds no supported tick.
pub proof fn lemma_traversal_finds_greatest_below(
    arrays: Seq<TickArray>,
    tick_index: int,
    tick_spacing: u16,
    array_index: int,
)
    requires
        0 <= array_index < arrays.len() <= usize::MAX,
        tick_spacing != 0,
        arrays[array_index].start_tick_index <= MAX_TICK_INDEX,
        arrays[array_index].search_range(tick_index, tick_spacing, false),
        exists|o: int|
            0 <= o < TICK_ARRAY_SIZE && (#[trigger] arrays[array_index].ticks@[o]).initialized
                && arrays[array_index].tick_index_at(o, tick_spacing) <= tick_index,
    ensures
        next_initialized_tick(arrays, tick_index, tick_spacing, true, array_index) matches Ok(
            found,
        ) && {
            let array = arrays[array_index];
            let offset = array.floor_offset(found.1 as int, tick_spacing);
            &&& found.0 == array_index
            &&& found.1 <= tick_index
            &&& 0 <= offset < TICK_ARRAY_SIZE
            &&& found.1 == array.tick_index_at(offset, tick_spacing)
            &&& array.ticks@[offset].initialized
            &&& forall|o: int|
                0 <= o < TICK_ARRAY_SIZE && found.1 < array.tick_index_at(o, tick_spacing)
                    <= tick_index ==> !(#[trigger] array.ticks@[o]).initialized
        },
{
    let array = arrays[array_index];
    let from = array.floor_offset(tick_index, tick_spacing);
    let offset = array.next_init_offset_down(from);
    array.lemma_next_init_offset_down(from);
    let witness = choose|o: int|
        0 <= o < TICK_ARRAY_SIZE && (#[trigger] array.ticks@[o]).initialized && array.tick_index_at(
            o,
            tick_spacing,
        ) <= tick_index;
    array.lemma_offset_order(witness, tick_index, tick_spacing);
    assert(0 <= offset < TICK_ARRAY_SIZE);
    array.lemma_offset_order(offset, tick_index, tick_spacing);
    array.lemma_scan_goes_on(offset, tick_spacing);
    assert(0 <= offset * tick_spacing <= 87 * 65535) by (nonlinear_arith)
        requires
            0 <= offset <= 87,
            0 <= tick_spacing <= 65535,
    ;
    assert forall|o: int|
        0 <= o < TICK_ARRAY_SIZE && array.tick_index_at(offset, tick_spacing) < array.tick_index_at(
            o,
            tick_spacing,
        ) <= tick_index implies !(#[trigger] array.ticks@[o]).initialized by {
        array.lemma_offset_order(o, tick_index, tick_spacing);
        array.lemma_offset_order(o, array.tick_index_at(offset, tick_spacing), tick_spacing);
    }
}

/// A traversal towards greater ticks that starts within its first array, which holds an
/// initialized tick above the start, ends there at the least such tick: the tick found
/// is initialized and lies above the start, and no tick of the array between the start
/// and it is initialized.
///
/// The array must not start above the largest supported tick; the traversal fails in one
/// that does, for it holds no supported tick.
pub proof fn lemma_traversal_finds_least_above(
    arrays: Seq<TickArray>,
    tick_index: int,
    tick_spacing: u16,
    array_index: int,
)
    requires
        0 <= array_index < arrays.len() <= usize::MAX,
        tick_spacing != 0,
        arrays[array_index].start_tick_index <= MAX_TICK_INDEX,
        arrays[array_index].search_range(tick_index, tick_spacing, true),
        exists|o: int|
            0 <= o < TICK_ARRAY_SIZE && (#[trigger] arrays[array_index].ticks@[o]).initialized
                && arrays[array_index].tick_index_at(o, tick_spacing) > tick_index,
    ensures
        next_initialized_tick(arrays, tick_index, tick_spacing, false, array_index) matches Ok(
            found,
        ) && {
            let array = arrays[array_index];
            let offset = array.floor_offset(found.1 as int, tick_spacing);
            &&& found.0 == array_index
            &&& found.1 > tick_index
            &&& 0 <= offset < TICK_ARRAY_SIZE
            &&& found.1 == array.tick_index_at(offset, tick_spacing)
            &&& array.ticks@[offset].initialized
            &&& forall|o: int|
                0 <= o < TICK_ARRAY_SIZE && tick_index < array.tick_index_at(o, tick_spacing)
                    < found.1 ==> !(#[trigger] array.ticks@[o]).initialized
        },
{
    let array = arrays[array_index];
    let from = array.floor_offset(tick_index, tick_spacing);
    let offset = array.next_init_offset_up(from + 1);
    array.lemma_next_init_offset_up(from + 1);
    let witness = choose|o: int|
        0 <= o < TICK_ARRAY_SIZE && (#[trigger] array.ticks@[o]).initialized && array.tick_index_at(
            o,
            tick_spacing,
        ) > tick_index;
    array.lemma_offset_order(witness, tick_index, tick_spacing);
    assert(0 <= offset < TICK_ARRAY_SIZE);
    array.lemma_offset_order(offset, tick_index, tick_spacing);
    array.lemma_scan_goes_on(offset, tick_spacing);
    assert(0 <= offset * tick_spacing <= 87 * 65535) by (nonlinear_arith)
        requires
            0 <= offset <= 87,
            0 <= tick_spacing <= 65535,
    ;
    assert forall|o: int|
        0 <= o < TICK_ARRAY_SIZE && tick_index < array.tick_index_at(o, tick_spacing)
            < array.tick_index_at(offset, tick_spacing) implies !(
        #[trigger] array.ticks@[o]).initialized by {
        array.lemma_offset_order(o, tick_index, tick_spacing);
        array.lemma_offset_order(o, array.tick_index_at(offset, tick_spacing) - 1, tick_spacing);
    }
}

/// Searches towards smaller ticks through an array whose ticks are all initialized meet
/// each of its ticks once, in falling order: the search from the tick at `offset` ends
/// at that tick, and the search that goes on from it, one tick spacing below, ends at the
/// tick before it.
///
/// The array must not start above the largest supported tick.
pub proof fn lemma_traversal_down_through_full_array(
    arrays: Seq<TickArray>,
    tick_spacing: u16,
    array_index: int,
    offset: int,
)
    requires
        0 <= array_index < arrays.len() <= usize::MAX,
        tick_spacing != 0,
        arrays[array_index].start_tick_index <= MAX_TICK_INDEX,
        arrays[array_index].all_initialized(),
        0 <= offset < TICK_ARRAY_SIZE,
    ensures
        next_initialized_tick(
            arrays,
            arrays[array_index].tick_index_at(offset, tick_spacing),
            tick_spacing,
            true,
            array_index,
        ) == Ok::<(usize, i32), ErrorCode>(
            (
                array_index as usize,
                arrays[array_index].tick_index_at(offset, tick_spacing) as i32,
            ),
        ),
        arrays[array_index].tick_index_at(offset, tick_spacing) - tick_spacing
            == arrays[array_index].tick_index_at(offset - 1, tick_spacing),
{
    let array = arrays[array_index];
    array.lemma_scan_goes_on(offset, tick_spacing);
    assert(0 <= offset * tick_spacing <= 87 * 65535 && offset * tick_spacing < 88 * tick_spacing
        && (offset - 1) * tick_spacing == offset * tick_spacing - tick_spacing) by (nonlinear_arith)
        requires
            0 <= offset <= 87,
            0 < tick_spacing <= 65535,
    ;
}

/// Searches towards greater ticks through an array whose ticks are all initialized meet
/// each of its ticks above the first once, in rising order: the search from the tick
/// at `offset`, which does not count, ends at the tick after it.
///
/// The array must not start above the largest supported tick.
pub proof fn lemma_traversal_up_through_full_array(
    arrays: Seq<TickArray>,
    tick_spacing: u16,
    array_index: int,
    offset: int,
)
    requires
        0 <= array_index < arrays.len() <= usize::MAX,
        tick_spacing != 0,
        arrays[array_index].start_tick_index <= MAX_TICK_INDEX,
        arrays[array_index].all_initialized(),
        0 <= offset < TICK_ARRAY_SIZE - 1,
    ensures
        next_initialized_tick(
            arrays,
            arrays[array_index].tick_index_at(offset, tick_spacing),
            tick_spacing,
            false,
            array_index,
        ) == Ok::<(usize, i32), ErrorCode>(
            (
                array_index as usize,
                arrays[array_index].tick_index_at(offset + 1, tick_spacing) as i32,
            ),
        ),
{
    let array = arrays[array_index];
    array.lemma_scan_goes_on(offset, tick_spacing);
    assert(0 <= offset * tick_spacing <= 86 * tick_spacing && (offset + 1) * tick_spacing
        == offset * tick_spacing + tick_spacing && (offset + 1) * tick_spacing <= 87 * 65535)
        by (nonlinear_arith)
        requires
            0 <= offset <= 86,
            0 < tick_spacing <= 65535,
    ;
    assert(array.ticks@[offset + 1].initialized);
    assert(array.next_init_offset_up(offset + 1) == offset + 1);
}

impl SwapTickSequence {
    /// The sequence of `ta0`, then `ta1` and `ta2` where they are given.
    pub fn new(ta0: TickArray, ta1: Option<TickArray>, ta2: Option<TickArray>) -> (r:
        SwapTickSequence)
        ensures
            r.arrays@ == loaded_arrays(ta0, ta1, ta2),
    {
        let mut vec: Vec<TickArray> = Vec::with_capacity(3);
        vec.push(ta0);
        if ta1.is_some() {
            vec.push(ta1.unwrap());
        }
        if ta2.is_some() {
            vec.push(ta2.unwrap());
        }
        SwapTickSequence { arrays: vec }
    }

    /// A sequence of the same arrays, to work on while this one stays as it is.
    pub fn duplicate(&self) -> (r: SwapTickSequence)
        ensures
            r.arrays@ == self.arrays@,
    {
        let mut arrays: Vec<TickArray> = Vec::new();
        let mut i: usize = 0;
        while i < self.arrays.len()
            invariant
                i <= self.arrays@.len(),
                arrays@ == self.arrays@.take(i as int),
            decreases self.arrays@.len() - i,
        {
            arrays.push(self.arrays[i]);
            assert(arrays@ =~= self.arrays@.take(i + 1));
            i = i + 1;
        }
        assert(arrays@ =~= self.arrays@);
        SwapTickSequence { arrays }
    }

    /// The tick with index `tick_index` in the array `array_index`.
    ///
    /// Fails with `TickArrayIndexOutofBounds` where no such array is loaded, and else as
    /// `TickArray::get_tick` does.
    pub fn get_tick(&self, array_index: usize, tick_index: i32, tick_spacing: u16) -> (r: Result<
        &Tick,
        ErrorCode,
    >)
        ensures
            array_index >= self.arrays@.len() ==> r == Err::<&Tick, ErrorCode>(
                ErrorCode::TickArrayIndexOutofBounds,
            ),
            array_index < self.arrays@.len() && tick_spacing == 0 ==> r == Err::<&Tick, ErrorCode>(
                ErrorCode::InvalidTickSpacing,
            ),
            array_index < self.arrays@.len() && tick_spacing != 0 && !self.arrays@[array_index as int].holds_tick(
                tick_index as int,
                tick_spacing,
            ) ==> r == Err::<&Tick, ErrorCode>(ErrorCode::TickNotFound),
            array_index < self.arrays@.len() && self.arrays@[array_index as int].holds_tick(
                tick_index as int,
                tick_spacing,
            ) ==> r == Ok::<&Tick, ErrorCode>(
                &self.arrays@[array_index as int].ticks@[self.arrays@[array_index as int].floor_offset(
                    tick_index as int,
                    tick_spacing,
                )],
            ),
    {
        if array_index < self.arrays.len() {
            self.arrays[array_index].get_tick(tick_index, tick_spacing)
        } else {
            Err(ErrorCode::TickArrayIndexOutofBounds)
        }
    }

    /// Overwrites the tick with index `tick_index` in the array `array_index` with the
    /// contents of `update`; every other tick and every other array stays as it is.
    ///
    /// Fails with `TickArrayIndexOutofBounds` where no such array is loaded, and else as
    /// `TickArray::update_tick` does; after a failure nothing has changed.
    pub fn update_tick(
        &mut self,
        array_index: usize,
        tick_index: i32,
        tick_spacing: u16,
        update: &TickUpdate,
    ) -> (r: Result<(), ErrorCode>)
        ensures
            array_index >= old(self).arrays@.len() ==> r == Err::<(), ErrorCode>(
                ErrorCode::TickArrayIndexOutofBounds,
            ),
            array_index < old(self).arrays@.len() && tick_spacing == 0 ==> r == Err::<
                (),
                ErrorCode,
            >(ErrorCode::InvalidTickSpacing),
            array_index < old(self).arrays@.len() && tick_spacing != 0 && !old(
                self,
            ).arrays@[array_index as int].holds_tick(tick_index as int, tick_spacing) ==> r
                == Err::<(), ErrorCode>(ErrorCode::TickNotFound),
            r is Err ==> final(self).arrays@ == old(self).arrays@,
            array_index < old(self).arrays@.len() && old(self).arrays@[array_index as int].holds_tick(
                tick_index as int,
                tick_spacing,
            ) ==> r is Ok && final(self).arrays@ == old(self).arrays@.update(
                array_index as int,
                old(self).arrays@[array_index as int].with_tick(
                    old(self).arrays@[array_index as int].floor_offset(
                        tick_index as int,
                        tick_spacing,
                    ),
                    update.as_tick(),
                ),
            ),
    {
        if array_index < self.arrays.len() {
            let mut array: TickArray = self.arrays[array_index];
            match array.update_tick(tick_index, tick_spacing, update) {
                Ok(()) => {
                    self.arrays.set(array_index, array);
                    Ok(())
                },
                Err(e) => Err(e),
            }
        } else {
            Err(ErrorCode::TickArrayIndexOutofBounds)
        }
    }

    /// The offset of the tick with index `tick_index` in the array `array_index`.
    ///
    /// Fails with `TickArrayIndexOutofBounds` where no such array is loaded, and else as
    /// `TickArray::tick_offset` does.
    pub fn get_tick_offset(&self, array_index: usize, tick_index: i32, tick_spacing: u16) -> (r:
        Result<isize, ErrorCode>)
        ensures
            array_index >= self.arrays@.len() ==> r == Err::<isize, ErrorCode>(
                ErrorCode::TickArrayIndexOutofBounds,
            ),
            array_index < self.arrays@.len() && tick_spacing == 0 ==> r == Err::<isize, ErrorCode>(
                ErrorCode::InvalidTickSpacing,
            ),
            array_index < self.arrays@.len() && tick_spacing != 0 && !self.arrays@[array_index as int].holds_tick(
                tick_index as int,
                tick_spacing,
            ) ==> r == Err::<isize, ErrorCode>(ErrorCode::TickNotFound),
            array_index < self.arrays@.len() && self.arrays@[array_index as int].holds_tick(
                tick_index as int,
                tick_spacing,
            ) ==> r == Ok::<isize, ErrorCode>(
                self.arrays@[array_index as int].floor_offset(tick_index as int, tick_spacing) as isize,
            ),
    {
        if array_index < self.arrays.len() {
            self.arrays[array_index].tick_offset(tick_index, tick_spacing)
        } else {
            Err(ErrorCode::TickArrayIndexOutofBounds)
        }
    }

    /// The array and the index of the tick at which the next step of a swap ends: the
    /// next initialized tick from `tick_index` on in the direction of the trade, looked
    /// for first in the array `start_array_index` and then in those after it.
    ///
    /// Where `a_to_b`, the search moves towards smaller indexes and `tick_index` itself
    /// counts; otherwise it moves towards greater indexes and `tick_index` does not count.
    pub fn get_next_initialized_tick_index(
        &self,
        tick_index: i32,
        tick_spacing: u16,
        a_to_b: bool,
        start_array_index: usize,
    ) -> (r: Result<(usize, i32), ErrorCode>)
        ensures
            r == next_initialized_tick(
                self.arrays@,
                tick_index as int,
                tick_spacing,
                a_to_b,
                start_array_index as int,
            ),
    {
        let mut search_index: i32 = tick_index;
        let mut array_index: usize = start_array_index;

        loop
            invariant
                next_initialized_tick(
                    self.arrays@,
                    search_index as int,
                    tick_spacing,
                    a_to_b,
                    array_index as int,
                ) == next_initialized_tick(
                    self.arrays@,
                    tick_index as int,
                    tick_spacing,
                    a_to_b,
                    start_array_index as int,
                ),
            decreases self.arrays@.len() - array_index,
        {
            if array_index >= self.arrays.len() {
                return Err(ErrorCode::TickArraySequenceInvalidIndex);
            }
            let next_array: &TickArray = &self.arrays[array_index];

            let next_index: Option<i32> = match next_array.get_next_init_tick_index(
                search_index,
                tick_spacing,
                a_to_b,
            ) {
                Ok(next_index) => next_index,
                Err(e) => { return Err(e); },
            };

            match next_index {
                Some(next_index) => {
                    return Ok((array_index, next_index));
                },
                None => {
                    let last_tick: i64 = next_array.start_tick_index as i64 + 88 * (
                    tick_spacing as i64) - 1;
                    if a_to_b && next_array.is_min_tick_array() {
                        return Ok((array_index, MIN_TICK_INDEX));
                    } else if !a_to_b && next_array.is_max_tick_array(tick_spacing) {
                        return Ok((array_index, MAX_TICK_INDEX));
                    }
                    if array_index + 1 == self.arrays.len() {
                        if a_to_b {
                            return Ok((array_index, next_array.start_tick_index));
                        } else {
                            return Ok((array_index, last_tick as i32));
                        }
                    }
                    search_index = if a_to_b {
                        next_array.start_tick_index - 1
                    } else {
                        last_tick as i32
                    };
                    array_index += 1;
                },
            }
        }
    }
}

} // verus!
