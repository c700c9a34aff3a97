//! The order of the prices of ticks: over the supported range, a greater tick has a
//! greater price.

use crate::math::tick_math::{
    lemma_sqrt_price_at_bounds, negative_factor, negative_ratio, positive_factor,
    positive_ratio, positive_step, pow2_96, sqrt_price_at_tick, tick_at_sqrt_price, bisect_tick,
    MAX_SQRT_PRICE_X64, MAX_TICK_INDEX, MIN_SQRT_PRICE_X64, MIN_TICK_INDEX, TICK_BITS,
};
use vstd::prelude::*;

verus! {

/// The least by which the Q32.96 ratios of two neighbouring ticks that are not negative
/// differ.
pub open spec fn positive_gap() -> int {
    0x2_0000_0000
}

/// The Q32.96 ratio of the tick whose `bits` lowest binary digits are all set.
pub open spec fn positive_ones(bits: int) -> int
    decreases bits,
{
    if bits <= 0 {
        pow2_96()
    } else {
        positive_step(positive_ones(bits - 1), positive_factor(bits - 1))
    }
}

/// The number of magnitudes that the binary digits from `bit` on can tell apart.
pub open spec fn magnitudes_from(bit: int) -> int
    decreases TICK_BITS - bit,
{
    if bit >= TICK_BITS {
        1
    } else {
        2 * magnitudes_from(bit + 1)
    }
}

/// Each factor of a positive tick is at least one.
pub proof fn lemma_positive_factor_bounds(bit: int)
    requires
        0 <= bit < TICK_BITS,
    ensures
        pow2_96() <= positive_factor(bit) <= u128::MAX,
{
}

/// A step of a positive tick does not lower the ratio, and keeps the order of ratios.
pub proof fn lemma_positive_step_grows(low: int, high: int, factor: int)
    requires
        0 <= low <= high <= u128::MAX,
        pow2_96() <= factor,
    ensures
        low <= positive_step(low, factor) <= positive_step(high, factor) <= u128::MAX,
{
    assert(low * pow2_96() <= low * factor <= high * factor) by (nonlinear_arith)
        requires
            0 <= low <= high,
            pow2_96() <= factor,
    ;
}

/// The ratio of a positive tick is not below the ratio it starts from, and keeps the
/// order of the ratios it starts from.
pub proof fn lemma_positive_ratio_grows(rest: nat, bit: int, low: int, high: int)
    requires
        0 <= low <= high <= u128::MAX,
        0 <= bit,
    ensures
        low <= positive_ratio(rest, bit, low) <= positive_ratio(rest, bit, high) <= u128::MAX,
    decreases TICK_BITS - bit,
{
    if bit < TICK_BITS {
        if rest % 2 == 1 {
            lemma_positive_factor_bounds(bit);
            lemma_positive_step_grows(low, high, positive_factor(bit));
            lemma_positive_ratio_grows(
                rest / 2,
                bit + 1,
                positive_step(low, positive_factor(bit)),
                positive_step(high, positive_factor(bit)),
            );
        } else {
            lemma_positive_ratio_grows(rest / 2, bit + 1, low, high);
        }
    }
}

/// Two ratios that are `gap` apart stay as far apart through the steps of a positive
/// tick, where the greater one stays below the largest 128-bit number.
pub proof fn lemma_positive_ratio_keeps_gap(rest: nat, bit: int, low: int, high: int, gap: int)
    requires
        0 <= low,
        0 <= gap,
        low + gap <= high <= u128::MAX,
        0 <= bit,
        positive_ratio(rest, bit, high) < u128::MAX,
    ensures
        positive_ratio(rest, bit, low) + gap <= positive_ratio(rest, bit, high),
    decreases TICK_BITS - bit,
{
    if bit < TICK_BITS {
        if rest % 2 == 1 {
            let factor = positive_factor(bit);
            lemma_positive_factor_bounds(bit);
            lemma_positive_step_grows(low, high, factor);
            let next_high = positive_step(high, factor);
            let next_low = positive_step(low, factor);
            lemma_positive_ratio_grows(rest / 2, bit + 1, next_high, next_high);
            assert(next_high < u128::MAX);
            assert(next_high == high * factor / pow2_96());
            assert(low * factor + gap * pow2_96() <= high * factor) by (nonlinear_arith)
                requires
                    0 <= low,
                    0 <= gap,
                    low + gap <= high,
                    pow2_96() <= factor,
            ;
            assert(next_low + gap <= next_high);
            lemma_positive_ratio_keeps_gap(rest / 2, bit + 1, next_low, next_high, gap);
        } else {
            lemma_positive_ratio_keeps_gap(rest / 2, bit + 1, low, high, gap);
        }
    }
}

/// The ratio of the tick whose lowest digits are all set lies `positive_gap` or more
/// below the factor of the next digit.
pub proof fn lemma_positive_ones(bits: int)
    requires
        0 <= bits < TICK_BITS,
    ensures
        0 <= positive_ones(bits),
        positive_ones(bits) + positive_gap() <= positive_factor(bits),
{
    assert(positive_ones(0) == 79228162514264337593543950336);
    assert(positive_step(79228162514264337593543950336, positive_factor(0)) == 79232123823359799118286999567);
    assert(positive_ones(1) == 79232123823359799118286999567);
    assert(positive_step(79232123823359799118286999567, positive_factor(1)) == 79240047035742135098198828266);
    assert(positive_ones(2) == 79240047035742135098198828266);
    assert(positive_step(79240047035742135098198828266, positive_factor(2)) == 79255895837549753882639819013);
    assert(positive_ones(3) == 79255895837549753882639819013);
    assert(positive_step(79255895837549753882639819013, positive_factor(3)) == 79287602951555555546117890668);
    assert(positive_ones(4) == 79287602951555555546117890668);
    assert(positive_step(79287602951555555546117890668, positive_factor(4)) == 79351055238886287249021387662);
    assert(positive_ones(5) == 79351055238886287249021387662);
    assert(positive_step(79351055238886287249021387662, positive_factor(5)) == 79478112192985828264683945743);
    assert(positive_ones(6) == 79478112192985828264683945743);
    assert(positive_step(79478112192985828264683945743, positive_factor(6)) == 79732836757937260015387211174);
    assert(positive_ones(7) == 79732836757937260015387211174);
    assert(positive_step(79732836757937260015387211174, positive_factor(7)) == 80244737654238127488718973602);
    assert(positive_ones(8) == 80244737654238127488718973602);
    assert(positive_step(80244737654238127488718973602, positive_factor(8)) == 81278420067934296167840804769);
    assert(positive_ones(9) == 81278420067934296167840804769);
    assert(positive_step(81278420067934296167840804769, positive_factor(9)) == 83385902940400299275461041535);
    assert(positive_ones(10) == 83385902940400299275461041535);
    assert(positive_step(83385902940400299275461041535, positive_factor(10)) == 87766221508460644832294642638);
    assert(positive_ones(11) == 87766221508460644832294642638);
    assert(positive_step(87766221508460644832294642638, positive_factor(11)) == 97229249414171470058378025113);
    assert(positive_ones(12) == 97229249414171470058378025113);
    assert(positive_step(97229249414171470058378025113, positive_factor(12)) == 119326250996567256184535330018);
    assert(positive_ones(13) == 119326250996567256184535330018);
    assert(positive_step(119326250996567256184535330018, positive_factor(13)) == 179727329839858001577522965083);
    assert(positive_ones(14) == 179727329839858001577522965083);
    assert(positive_step(179727329839858001577522965083, positive_factor(14)) == 407727847289508202411734771016);
    assert(positive_ones(15) == 407727847289508202411734771016);
    assert(positive_step(407727847289508202411734771016, positive_factor(15)) == 2098373912401228121358801911315);
    assert(positive_ones(16) == 2098373912401228121358801911315);
    assert(positive_step(2098373912401228121358801911315, positive_factor(16)) == 55578636303768444659257259827406);
    assert(positive_ones(17) == 55578636303768444659257259827406);
    assert(positive_step(55578636303768444659257259827406, positive_factor(17)) == 38990419072385107768429658011568861);
    assert(positive_ones(18) == 38990419072385107768429658011568861);
}

/// The ratio of a tick that is not negative lies below that of the tick after it, by
/// `positive_gap` or more where the ratio of the tick after it lies below the largest
/// 128-bit number. Here `rest` stands for the digits of the tick from `bit` on, and the
/// digits below `bit` are all set.
proof fn lemma_positive_carry(rest: nat, bit: int)
    requires
        0 <= bit <= TICK_BITS,
        rest + 1 < magnitudes_from(bit),
    ensures
        positive_ratio(rest, bit, positive_ones(bit)) <= positive_ratio(
            (rest + 1) as nat,
            bit,
            pow2_96(),
        ),
        positive_ratio((rest + 1) as nat, bit, pow2_96()) < u128::MAX ==> positive_ratio(
            rest,
            bit,
            positive_ones(bit),
        ) + positive_gap() <= positive_ratio((rest + 1) as nat, bit, pow2_96()),
    decreases TICK_BITS - bit,
{
    if bit < TICK_BITS {
        lemma_positive_ones(bit);
        lemma_positive_factor_bounds(bit);
        if rest % 2 == 1 {
            assert((rest + 1) / 2 == rest / 2 + 1);
            lemma_positive_carry(rest / 2, bit + 1);
        } else {
            let factor = positive_factor(bit);
            assert((rest + 1) / 2 == rest / 2);
            assert(pow2_96() * factor / pow2_96() == factor) by (nonlinear_arith)
                requires
                    pow2_96() > 0,
            ;
            assert(positive_step(pow2_96(), factor) == factor);
            lemma_positive_ratio_grows(rest / 2, bit + 1, positive_ones(bit), factor);
            if positive_ratio(rest / 2, bit + 1, factor) < u128::MAX {
                lemma_positive_ratio_keeps_gap(
                    rest / 2,
                    bit + 1,
                    positive_ones(bit),
                    factor,
                    positive_gap(),
                );
            }
        }
    }
}

/// The Q32.96 ratio of a tick that is not negative.
pub open spec fn positive_ratio_at(tick: int) -> int {
    positive_ratio(tick as nat, 0, pow2_96())
}

/// No ratio of a supported tick that is not negative reaches the largest 128-bit
/// number, and each lies `positive_gap` or more below that of the tick after it.
pub proof fn lemma_positive_ticks_ordered(tick: int)
    requires
        0 <= tick < MAX_TICK_INDEX,
    ensures
        positive_ratio_at(tick) + positive_gap() <= positive_ratio_at(tick + 1),
        positive_ratio_at(tick + 1) <= positive_ratio_at(MAX_TICK_INDEX as int) < u128::MAX,
    decreases MAX_TICK_INDEX - tick,
{
    lemma_sqrt_price_at_bounds();
    assert(magnitudes_from(0) == 524288) by {
        reveal_with_fuel(magnitudes_from, 20);
    }
    lemma_positive_ratio_grows(MAX_TICK_INDEX as nat, 0, pow2_96(), pow2_96());
    assert(positive_ratio_at(MAX_TICK_INDEX as int) / 0x1_0000_0000 == MAX_SQRT_PRICE_X64);
    if tick + 1 < MAX_TICK_INDEX {
        lemma_positive_ticks_ordered(tick + 1);
    }
    lemma_positive_carry(tick as nat, 0);
}

/// The Q64.64 ratio of the negative tick whose magnitude has its `bits` lowest binary
/// digits all set.
pub open spec fn negative_ones(bits: int) -> int
    decreases bits,
{
    if bits <= 0 {
        0x1_0000_0000_0000_0000
    } else {
        negative_ones(bits - 1) * negative_factor(bits - 1) / 0x1_0000_0000_0000_0000
    }
}

/// How far two ratios of negative ticks are apart at the least: the greater one lies
/// above the smaller one by one part in `2^15` of the smaller one less `slack`.
pub open spec fn apart(high: int, low: int, slack: int) -> bool {
    0x8000 * (high - low) >= low - slack
}

/// Each factor of a negative tick lies between zero and one.
pub proof fn lemma_negative_factor_bounds(bit: int)
    requires
        0 <= bit < TICK_BITS,
    ensures
        0 < negative_factor(bit) < 0x1_0000_0000_0000_0000,
{
}

/// The ratio of a negative tick is not above the ratio it starts from, and keeps the
/// order of the ratios it starts from.
pub proof fn lemma_negative_ratio_shrinks(rest: nat, bit: int, low: int, high: int)
    requires
        0 <= low <= high,
        0 <= bit,
    ensures
        0 <= negative_ratio(rest, bit, low) <= negative_ratio(rest, bit, high) <= high,
    decreases TICK_BITS - bit,
{
    if bit < TICK_BITS {
        if rest % 2 == 1 {
            let factor = negative_factor(bit);
            lemma_negative_factor_bounds(bit);
            assert(0 <= low * factor <= high * factor <= high * 0x1_0000_0000_0000_0000)
                by (nonlinear_arith)
                requires
                    0 <= low <= high,
                    0 < factor < 0x1_0000_0000_0000_0000,
            ;
            lemma_negative_ratio_shrinks(
                rest / 2,
                bit + 1,
                low * factor / 0x1_0000_0000_0000_0000,
                high * factor / 0x1_0000_0000_0000_0000,
            );
        } else {
            lemma_negative_ratio_shrinks(rest / 2, bit + 1, low, high);
        }
    }
}

/// Two ratios that are apart stay apart through the steps of a negative tick, with a
/// slack that grows by `2^15` at each step.
pub proof fn lemma_negative_ratio_keeps_apart(
    rest: nat,
    bit: int,
    high: int,
    low: int,
    slack: int,
)
    requires
        0 <= low <= high,
        0 <= slack,
        0 <= bit <= TICK_BITS,
        apart(high, low, slack),
    ensures
        apart(
            negative_ratio(rest, bit, high),
            negative_ratio(rest, bit, low),
            slack + (TICK_BITS - bit) * 0x8000,
        ),
    decreases TICK_BITS - bit,
{
    if bit < TICK_BITS {
        if rest % 2 == 1 {
            let factor = negative_factor(bit);
            lemma_negative_factor_bounds(bit);
            let high_product = high * factor;
            let low_product = low * factor;
            let slack_product = slack * factor;
            let next_high = high_product / 0x1_0000_0000_0000_0000;
            let next_low = low_product / 0x1_0000_0000_0000_0000;
            assert(0 <= low_product <= high_product && 0x8000 * (high_product - low_product)
                >= low_product - slack_product && 0 <= slack_product <= slack
                * 0x1_0000_0000_0000_0000) by (nonlinear_arith)
                requires
                    0 <= low <= high,
                    0 <= slack,
                    0 < factor < 0x1_0000_0000_0000_0000,
                    0x8000 * (high - low) >= low - slack,
                    high_product == high * factor,
                    low_product == low * factor,
                    slack_product == slack * factor,
            ;
            assert(apart(next_high, next_low, slack + 0x8000));
            lemma_negative_ratio_keeps_apart(rest / 2, bit + 1, next_high, next_low, slack + 0x8000);
        } else {
            lemma_negative_ratio_keeps_apart(rest / 2, bit + 1, high, low, slack);
        }
    }
}

/// The ratio of the negative tick whose magnitude has its lowest digits all set lies
/// apart from the factor of the next digit, without slack.
pub proof fn lemma_negative_ones(bits: int)
    requires
        0 <= bits < TICK_BITS,
    ensures
        0 < negative_factor(bits) <= negative_ones(bits),
        apart(negative_ones(bits), negative_factor(bits), 0),
{
    assert(negative_ones(0) == 18446744073709551616);
    assert(18446744073709551616 * negative_factor(0) / 0x1_0000_0000_0000_0000 == 18445821805675392311);
    assert(negative_ones(1) == 18445821805675392311);
    assert(18445821805675392311 * negative_factor(1) / 0x1_0000_0000_0000_0000 == 18443977407934598850);
    assert(negative_ones(2) == 18443977407934598850);
    assert(18443977407934598850 * negative_factor(2) / 0x1_0000_0000_0000_0000 == 18440289165698567478);
    assert(negative_ones(3) == 18440289165698567478);
    assert(18440289165698567478 * negative_factor(3) / 0x1_0000_0000_0000_0000 == 18432914893692463368);
    assert(negative_ones(4) == 18432914893692463368);
    assert(18432914893692463368 * negative_factor(4) / 0x1_0000_0000_0000_0000 == 18418175195415529478);
    assert(negative_ones(5) == 18418175195415529478);
    assert(18418175195415529478 * negative_factor(5) / 0x1_0000_0000_0000_0000 == 18388731148799035466);
    assert(negative_ones(6) == 18388731148799035466);
    assert(18388731148799035466 * negative_factor(6) / 0x1_0000_0000_0000_0000 == 18329984191681391131);
    assert(negative_ones(7) == 18329984191681391131);
    assert(18329984191681391131 * negative_factor(7) / 0x1_0000_0000_0000_0000 == 18213052719148788671);
    assert(negative_ones(8) == 18213052719148788671);
    assert(18213052719148788671 * negative_factor(8) / 0x1_0000_0000_0000_0000 == 17981422819357802651);
    assert(negative_ones(9) == 17981422819357802651);
    assert(17981422819357802651 * negative_factor(9) / 0x1_0000_0000_0000_0000 == 17526963021261575450);
    assert(negative_ones(10) == 17526963021261575450);
    assert(17526963021261575450 * negative_factor(10) / 0x1_0000_0000_0000_0000 == 16652210978343353594);
    assert(negative_ones(11) == 16652210978343353594);
    assert(16652210978343353594 * negative_factor(11) / 0x1_0000_0000_0000_0000 == 15031501797419866121);
    assert(negative_ones(12) == 15031501797419866121);
    assert(15031501797419866121 * negative_factor(12) / 0x1_0000_0000_0000_0000 == 12247947330323375219);
    assert(negative_ones(13) == 12247947330323375219);
    assert(12247947330323375219 * negative_factor(13) / 0x1_0000_0000_0000_0000 == 8131771826984472022);
    assert(negative_ones(14) == 8131771826984472022);
    assert(8131771826984472022 * negative_factor(14) / 0x1_0000_0000_0000_0000 == 3584502866425897898);
    assert(negative_ones(15) == 3584502866425897898);
    assert(3584502866425897898 * negative_factor(15) / 0x1_0000_0000_0000_0000 == 696492473859659073);
    assert(negative_ones(16) == 696492473859659073);
    assert(696492473859659073 * negative_factor(16) / 0x1_0000_0000_0000_0000 == 26296104664083085);
    assert(negative_ones(17) == 26296104664083085);
    assert(26296104664083085 * negative_factor(17) / 0x1_0000_0000_0000_0000 == 37483609360998);
    assert(negative_ones(18) == 37483609360998);
}

/// The ratio of a negative tick lies above that of the tick before it, which has the
/// next magnitude. Here `rest` stands for the digits of the magnitude from `bit` on, and
/// the digits below `bit` are all set.
proof fn lemma_negative_carry(rest: nat, bit: int)
    requires
        0 <= bit <= TICK_BITS,
        rest + 1 < magnitudes_from(bit),
    ensures
        0 <= negative_ratio((rest + 1) as nat, bit, 0x1_0000_0000_0000_0000) <= negative_ratio(
            rest,
            bit,
            negative_ones(bit),
        ),
        apart(
            negative_ratio(rest, bit, negative_ones(bit)),
            negative_ratio((rest + 1) as nat, bit, 0x1_0000_0000_0000_0000),
            TICK_BITS * 0x8000,
        ),
    decreases TICK_BITS - bit,
{
    if bit < TICK_BITS {
        lemma_negative_ones(bit);
        if rest % 2 == 1 {
            assert((rest + 1) / 2 == rest / 2 + 1);
            lemma_negative_carry(rest / 2, bit + 1);
        } else {
            let factor = negative_factor(bit);
            assert((rest + 1) / 2 == rest / 2);
            assert(0x1_0000_0000_0000_0000 * factor / 0x1_0000_0000_0000_0000 == factor);
            lemma_negative_ratio_shrinks(rest / 2, bit + 1, factor, negative_ones(bit));
            lemma_negative_ratio_keeps_apart(rest / 2, bit + 1, negative_ones(bit), factor, 0);
        }
    }
}

/// The Q64.64 ratio of the negative tick with this magnitude.
pub open spec fn negative_ratio_at(magnitude: int) -> int {
    negative_ratio(magnitude as nat, 0, 0x1_0000_0000_0000_0000)
}

/// The ratio of a supported negative tick lies above that of the tick before it, and
/// none lies below the smallest supported price.
pub proof fn lemma_negative_ticks_ordered(magnitude: int)
    requires
        0 <= magnitude < MAX_TICK_INDEX,
    ensures
        negative_ratio_at(magnitude + 1) < negative_ratio_at(magnitude),
        MIN_SQRT_PRICE_X64 <= negative_ratio_at(magnitude + 1),
    decreases MAX_TICK_INDEX - magnitude,
{
    lemma_sqrt_price_at_bounds();
    assert(magnitudes_from(0) == 524288) by {
        reveal_with_fuel(magnitudes_from, 20);
    }
    assert(negative_ratio_at(MAX_TICK_INDEX as int) == MIN_SQRT_PRICE_X64);
    if magnitude + 1 < MAX_TICK_INDEX {
        lemma_negative_ticks_ordered(magnitude + 1);
    }
    lemma_negative_carry(magnitude as nat, 0);
}

/// A tick without a set digit keeps the ratio it starts from.
proof fn lemma_ratio_of_zero(bit: int, ratio: int)
    requires
        0 <= bit,
    ensures
        positive_ratio(0, bit, ratio) == ratio,
        negative_ratio(0, bit, ratio) == ratio,
    decreases TICK_BITS - bit,
{
    if bit < TICK_BITS {
        lemma_ratio_of_zero(bit + 1, ratio);
    }
}

/// The price of tick zero is one, and the price of tick one is the factor of the
/// lowest binary digit, narrowed to 64 fractional bits.
pub proof fn lemma_sqrt_price_at_first_ticks()
    ensures
        sqrt_price_at_tick(0) == 0x1_0000_0000_0000_0000,
        sqrt_price_at_tick(1) == 18447666387855959850,
{
    lemma_ratio_of_zero(0, pow2_96());
    lemma_ratio_of_zero(1, 79232123823359799118286999567);
    assert(positive_step(pow2_96(), positive_factor(0)) == 79232123823359799118286999567);
    assert(positive_ratio(1, 0, pow2_96()) == positive_ratio(
        0,
        1,
        79232123823359799118286999567,
    ));
}

/// The price of a supported tick lies below the price of the tick after it.
pub proof fn lemma_sqrt_price_of_next_tick(tick: int)
    requires
        MIN_TICK_INDEX <= tick < MAX_TICK_INDEX,
    ensures
        sqrt_price_at_tick(tick) < sqrt_price_at_tick(tick + 1),
{
    if tick >= 0 {
        lemma_positive_ticks_ordered(tick);
    } else if tick == -1 {
        lemma_negative_ticks_ordered(0);
        lemma_ratio_of_zero(0, 0x1_0000_0000_0000_0000);
        lemma_ratio_of_zero(0, pow2_96());
    } else {
        lemma_negative_ticks_ordered(-tick - 1);
    }
}

/// Over the supported range a greater tick has a greater price, and all prices lie
/// within the supported prices.
pub proof fn lemma_sqrt_price_increases(lower: int, upper: int)
    requires
        MIN_TICK_INDEX <= lower <= upper <= MAX_TICK_INDEX,
    ensures
        lower < upper ==> sqrt_price_at_tick(lower) < sqrt_price_at_tick(upper),
        MIN_SQRT_PRICE_X64 <= sqrt_price_at_tick(lower) <= sqrt_price_at_tick(upper)
            <= MAX_SQRT_PRICE_X64,
    decreases upper - lower,
{
    lemma_sqrt_price_at_bounds();
    if lower < upper {
        lemma_sqrt_price_increases(lower, upper - 1);
        lemma_sqrt_price_of_next_tick(upper - 1);
    }
    lemma_sqrt_price_to_bounds(lower);
    lemma_sqrt_price_to_bounds(upper);
}

/// The price of a supported tick lies within the supported prices.
proof fn lemma_sqrt_price_to_bounds(tick: int)
    requires
        MIN_TICK_INDEX <= tick <= MAX_TICK_INDEX,
    ensures
        MIN_SQRT_PRICE_X64 <= sqrt_price_at_tick(tick) <= MAX_SQRT_PRICE_X64,
{
    lemma_sqrt_price_at_bounds();
    lemma_sqrt_price_rises_to(tick, MAX_TICK_INDEX as int);
    lemma_sqrt_price_rises_to(MIN_TICK_INDEX as int, tick);
}

/// Over the supported range a tick that is not smaller has a price that is not smaller.
proof fn lemma_sqrt_price_rises_to(lower: int, upper: int)
    requires
        MIN_TICK_INDEX <= lower <= upper <= MAX_TICK_INDEX,
    ensures
        sqrt_price_at_tick(lower) <= sqrt_price_at_tick(upper),
    decreases upper - lower,
{
    if lower < upper {
        lemma_sqrt_price_rises_to(lower, upper - 1);
        lemma_sqrt_price_of_next_tick(upper - 1);
    }
}

/// A bisection ends at a tick at which the prices pass `sqrt_price_x64`, where its
/// interval holds one: the price of the tick found is at most `sqrt_price_x64`, and the
/// price of the tick after it is greater.
proof fn lemma_bisect_tick(low: int, high: int, sqrt_price_x64: u128)
    requires
        low < high,
        sqrt_price_at_tick(low) <= sqrt_price_x64,
    ensures
        low <= bisect_tick(low, high, sqrt_price_x64) < high,
        sqrt_price_at_tick(bisect_tick(low, high, sqrt_price_x64)) <= sqrt_price_x64,
        bisect_tick(low, high, sqrt_price_x64) + 1 < high ==> sqrt_price_x64 < sqrt_price_at_tick(
            bisect_tick(low, high, sqrt_price_x64) + 1,
        ),
    decreases high - low,
{
    if high - low > 1 {
        let mid = low + (high - low) / 2;
        if sqrt_price_at_tick(mid) <= sqrt_price_x64 {
            lemma_bisect_tick(mid, high, sqrt_price_x64);
        } else {
            lemma_bisect_tick(low, mid, sqrt_price_x64);
        }
    }
}

/// The tick of a supported price is the greatest supported tick whose price is at most
/// that price: a supported tick has a price of at most `sqrt_price_x64` exactly where
/// it is at most the tick of `sqrt_price_x64`.
pub proof fn lemma_tick_at_sqrt_price_is_greatest(sqrt_price_x64: u128, tick: int)
    requires
        MIN_SQRT_PRICE_X64 <= sqrt_price_x64,
        MIN_TICK_INDEX <= tick <= MAX_TICK_INDEX,
    ensures
        MIN_TICK_INDEX <= tick_at_sqrt_price(sqrt_price_x64) <= MAX_TICK_INDEX,
        sqrt_price_at_tick(tick) <= sqrt_price_x64 <==> tick <= tick_at_sqrt_price(sqrt_price_x64),
{
    lemma_sqrt_price_at_bounds();
    let found = tick_at_sqrt_price(sqrt_price_x64);
    lemma_bisect_tick(MIN_TICK_INDEX as int, MAX_TICK_INDEX + 1, sqrt_price_x64);
    if tick <= found {
        lemma_sqrt_price_increases(tick, found);
    } else {
        lemma_sqrt_price_increases(found + 1, tick);
    }
}

/// The tick of the price of a supported tick is that tick.
pub proof fn lemma_tick_at_price_of_tick(tick: int)
    requires
        MIN_TICK_INDEX <= tick <= MAX_TICK_INDEX,
    ensures
        tick_at_sqrt_price(sqrt_price_at_tick(tick) as u128) == tick,
{
    lemma_sqrt_price_increases(tick, tick);
    let price = sqrt_price_at_tick(tick) as u128;
    let found = tick_at_sqrt_price(price);
    lemma_tick_at_sqrt_price_is_greatest(price, tick);
    lemma_tick_at_sqrt_price_is_greatest(price, found);
    if tick < found {
        lemma_sqrt_price_increases(tick, found);
    }
}

/// Whether a price and a tick agree: the price is a supported one and lies between the
/// price of the tick and the price of the tick after it, both counted. The tick may lie
/// one below the supported range, which is where it stands after the smallest
/// supported tick has been crossed downward.
pub open spec fn price_agrees_with_tick(sqrt_price: u128, tick_index: i32) -> bool {
    &&& MIN_SQRT_PRICE_X64 <= sqrt_price <= MAX_SQRT_PRICE_X64
    &&& MIN_TICK_INDEX - 1 <= tick_index <= MAX_TICK_INDEX
    &&& tick_index >= MIN_TICK_INDEX ==> sqrt_price_at_tick(tick_index as int) <= sqrt_price
    &&& tick_index < MAX_TICK_INDEX ==> sqrt_price <= sqrt_price_at_tick(tick_index + 1)
}

/// A supported price agrees with its tick.
pub proof fn lemma_price_agrees_with_its_tick(sqrt_price: u128)
    requires
        MIN_SQRT_PRICE_X64 <= sqrt_price <= MAX_SQRT_PRICE_X64,
    ensures
        price_agrees_with_tick(sqrt_price, tick_at_sqrt_price(sqrt_price) as i32),
{
    let found = tick_at_sqrt_price(sqrt_price);
    lemma_tick_at_sqrt_price_is_greatest(sqrt_price, MIN_TICK_INDEX as int);
    lemma_tick_at_sqrt_price_is_greatest(sqrt_price, found);
    if found < MAX_TICK_INDEX {
        lemma_tick_at_sqrt_price_is_greatest(sqrt_price, found + 1);
    }
}

} // verus!
