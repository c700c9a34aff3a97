use crate::math::u256_math::mul_u256;
use vstd::prelude::*;

verus! {

/// The largest tick index a pool supports.
pub const MAX_TICK_INDEX: i32 = 443636;

/// The smallest tick index a pool supports.
pub const MIN_TICK_INDEX: i32 = -443636;

/// The square-root price at the largest tick index.
pub const MAX_SQRT_PRICE_X64: u128 = 79226673515401279992447579055;

/// The square-root price at the smallest tick index.
pub const MIN_SQRT_PRICE_X64: u128 = 4295048016;

/// The number of binary digits of a tick index's magnitude that the price depends on.
pub const TICK_BITS: u32 = 19;

const Q96: u128 = 0x1_0000_0000_0000_0000_0000_0000;

const Q64: u128 = 0x1_0000_0000_0000_0000;

const Q32: u128 = 0x1_0000_0000;

/// `2^96`.
pub open spec fn pow2_96() -> int {
    0x1_0000_0000_0000_0000_0000_0000int
}

/// `sqrt(1.0001)^(2^bit)` as a Q32.96 fixed-point number, rounded down.
pub open spec fn positive_factor(bit: int) -> int {
    if bit == 0 {
        79232123823359799118286999567
    } else if bit == 1 {
        79236085330515764027303304731
    } else if bit == 2 {
        79244008939048815603706035061
    } else if bit == 3 {
        79259858533276714757314932305
    } else if bit == 4 {
        79291567232598584799939703904
    } else if bit == 5 {
        79355022692464371645785046466
    } else if bit == 6 {
        79482085999252804386437311141
    } else if bit == 7 {
        79736823300114093921829183326
    } else if bit == 8 {
        80248749790819932309965073892
    } else if bit == 9 {
        81282483887344747381513967011
    } else if bit == 10 {
        83390072131320151908154831281
    } else if bit == 11 {
        87770609709833776024991924138
    } else if bit == 12 {
        97234110755111693312479820773
    } else if bit == 13 {
        119332217159966728226237229890
    } else if bit == 14 {
        179736315981702064433883588727
    } else if bit == 15 {
        407748233172238350107850275304
    } else if bit == 16 {
        2098478828474011932436660412517
    } else if bit == 17 {
        55581415166113811149459800483533
    } else {
        38992368544603139932233054999993551
    }
}

/// `sqrt(1.0001)^(-2^bit)` as a Q64.64 fixed-point number, rounded down.
pub open spec fn negative_factor(bit: int) -> int {
    if bit == 0 {
        18445821805675392311
    } else if bit == 1 {
        18444899583751176498
    } else if bit == 2 {
        18443055278223354162
    } else if bit == 3 {
        18439367220385604838
    } else if bit == 4 {
        18431993317065449817
    } else if bit == 5 {
        18417254355718160513
    } else if bit == 6 {
        18387811781193591352
    } else if bit == 7 {
        18329067761203520168
    } else if bit == 8 {
        18212142134806087854
    } else if bit == 9 {
        17980523815641551639
    } else if bit == 10 {
        17526086738831147013
    } else if bit == 11 {
        16651378430235024244
    } else if bit == 12 {
        15030750278693429944
    } else if bit == 13 {
        12247334978882834399
    } else if bit == 14 {
        8131365268884726200
    } else if bit == 15 {
        3584323654723342297
    } else if bit == 16 {
        696457651847595233
    } else if bit == 17 {
        26294789957452057
    } else {
        37481735321082
    }
}

fn get_positive_factor(bit: u32) -> (r: u128)
    requires
        bit < TICK_BITS,
    ensures
        r == positive_factor(bit as int),
{
    match bit {
        0 => 79232123823359799118286999567,
        1 => 79236085330515764027303304731,
        2 => 79244008939048815603706035061,
        3 => 79259858533276714757314932305,
        4 => 79291567232598584799939703904,
        5 => 79355022692464371645785046466,
        6 => 79482085999252804386437311141,
        7 => 79736823300114093921829183326,
        8 => 80248749790819932309965073892,
        9 => 81282483887344747381513967011,
        10 => 83390072131320151908154831281,
        11 => 87770609709833776024991924138,
        12 => 97234110755111693312479820773,
        13 => 119332217159966728226237229890,
        14 => 179736315981702064433883588727,
        15 => 407748233172238350107850275304,
        16 => 2098478828474011932436660412517,
        17 => 55581415166113811149459800483533,
        _ => 38992368544603139932233054999993551,
    }
}

fn get_negative_factor(bit: u32) -> (r: u128)
    requires
        bit < TICK_BITS,
    ensures
        r == negative_factor(bit as int),
        r < 0x1_0000_0000_0000_0000,
{
    match bit {
        0 => 18445821805675392311,
        1 => 18444899583751176498,
        2 => 18443055278223354162,
        3 => 18439367220385604838,
        4 => 18431993317065449817,
        5 => 18417254355718160513,
        6 => 18387811781193591352,
        7 => 18329067761203520168,
        8 => 18212142134806087854,
        9 => 17980523815641551639,
        10 => 17526086738831147013,
        11 => 16651378430235024244,
        12 => 15030750278693429944,
        13 => 12247334978882834399,
        14 => 8131365268884726200,
        15 => 3584323654723342297,
        16 => 696457651847595233,
        17 => 26294789957452057,
        _ => 37481735321082,
    }
}

/// One step of a positive tick's price: the Q32.96 product of `ratio` and `factor`, held
/// at the largest 128-bit number where it would exceed it.
pub open spec fn positive_step(ratio: int, factor: int) -> int {
    if ratio * factor / pow2_96() > u128::MAX {
        u128::MAX as int
    } else {
        ratio * factor / pow2_96()
    }
}

/// The Q32.96 ratio of a positive tick: `ratio` times the factor of each binary digit
/// from `bit` on that is set in `rest * 2^bit`, up to the digit `TICK_BITS - 1`.
pub open spec fn positive_ratio(rest: nat, bit: int, ratio: int) -> int
    decreases TICK_BITS - bit,
{
    if bit < 0 || bit >= TICK_BITS {
        ratio
    } else if rest % 2 == 1 {
        positive_ratio(rest / 2, bit + 1, positive_step(ratio, positive_factor(bit)))
    } else {
        positive_ratio(rest / 2, bit + 1, ratio)
    }
}

/// The Q64.64 ratio of a negative tick, in the same way.
pub open spec fn negative_ratio(rest: nat, bit: int, ratio: int) -> int
    decreases TICK_BITS - bit,
{
    if bit < 0 || bit >= TICK_BITS {
        ratio
    } else if rest % 2 == 1 {
        negative_ratio(rest / 2, bit + 1, ratio * negative_factor(bit) / 0x1_0000_0000_0000_0000)
    } else {
        negative_ratio(rest / 2, bit + 1, ratio)
    }
}

/// The square-root price of a tick as a Q64.64 fixed-point number: an approximation from
/// below of `sqrt(1.0001)^tick`, built from one factor for each binary digit that is set in
/// the magnitude of `tick`.
pub open spec fn sqrt_price_at_tick(tick: int) -> int {
    if tick >= 0 {
        positive_ratio(tick as nat, 0, pow2_96()) / 0x1_0000_0000
    } else {
        negative_ratio((-tick) as nat, 0, 0x1_0000_0000_0000_0000)
    }
}

fn positive_mul_shift(ratio: u128, factor: u128) -> (r: u128)
    ensures
        r == positive_step(ratio as int, factor as int),
{
    let product = mul_u256(ratio, factor);
    if product.hi >= Q96 {
        u128::MAX
    } else {
        product.hi * Q32 + product.lo / Q96
    }
}

fn get_sqrt_price_positive_tick(tick: u32) -> (r: u128)
    ensures
        r == positive_ratio(tick as nat, 0, pow2_96()) / 0x1_0000_0000,
{
    let mut ratio: u128 = Q96;
    let mut rest: u32 = tick;
    let mut bit: u32 = 0;
    while bit < TICK_BITS
        invariant
            bit <= TICK_BITS,
            positive_ratio(rest as nat, bit as int, ratio as int) == positive_ratio(
                tick as nat,
                0,
                pow2_96(),
            ),
        decreases TICK_BITS - bit,
    {
        if rest % 2 == 1 {
            ratio = positive_mul_shift(ratio, get_positive_factor(bit));
        }
        rest = rest / 2;
        bit = bit + 1;
    }
    ratio / Q32
}

fn get_sqrt_price_negative_tick(magnitude: u32) -> (r: u128)
    ensures
        r == negative_ratio(magnitude as nat, 0, 0x1_0000_0000_0000_0000),
{
    let mut ratio: u128 = Q64;
    let mut rest: u32 = magnitude;
    let mut bit: u32 = 0;
    while bit < TICK_BITS
        invariant
            bit <= TICK_BITS,
            ratio <= 0x1_0000_0000_0000_0000,
            negative_ratio(rest as nat, bit as int, ratio as int) == negative_ratio(
                magnitude as nat,
                0,
                0x1_0000_0000_0000_0000,
            ),
        decreases TICK_BITS - bit,
    {
        if rest % 2 == 1 {
            let factor: u128 = get_negative_factor(bit);
            assert(ratio * factor <= 0x1_0000_0000_0000_0000 * 0xFFFF_FFFF_FFFF_FFFF
                && ratio * factor / 0x1_0000_0000_0000_0000 <= ratio) by (nonlinear_arith)
                requires
                    0 <= ratio <= 0x1_0000_0000_0000_0000,
                    0 <= factor <= 0xFFFF_FFFF_FFFF_FFFF,
            ;
            ratio = ratio * factor / Q64;
        }
        rest = rest / 2;
        bit = bit + 1;
    }
    ratio
}

/// The square-root price of a tick.
pub fn sqrt_price_from_tick_index(tick: i32) -> (r: u128)
    ensures
        r == sqrt_price_at_tick(tick as int),
{
    if tick >= 0 {
        get_sqrt_price_positive_tick(tick as u32)
    } else {
        get_sqrt_price_negative_tick((-(tick as i64)) as u32)
    }
}

/// The prices at the two ends of the supported range are those of the smallest and of
/// the largest supported tick.
pub proof fn lemma_sqrt_price_at_bounds()
    ensures
        sqrt_price_at_tick(MIN_TICK_INDEX as int) == MIN_SQRT_PRICE_X64,
        sqrt_price_at_tick(MAX_TICK_INDEX as int) == MAX_SQRT_PRICE_X64,
{
    lemma_sqrt_price_at_largest_tick();
    lemma_sqrt_price_at_smallest_tick();
}

proof fn lemma_sqrt_price_at_largest_tick()
    ensures
        sqrt_price_at_tick(MAX_TICK_INDEX as int) == MAX_SQRT_PRICE_X64,
{
    assert(positive_ratio(443636, 0, 79228162514264337593543950336) == positive_ratio(221818, 1, 79228162514264337593543950336));
    assert(positive_ratio(221818, 1, 79228162514264337593543950336) == positive_ratio(110909, 2, 79228162514264337593543950336));
    assert(positive_step(79228162514264337593543950336, positive_factor(2)) == 79244008939048815603706035061);
    assert(positive_ratio(110909, 2, 79228162514264337593543950336) == positive_ratio(55454, 3, 79244008939048815603706035061));
    assert(positive_ratio(55454, 3, 79244008939048815603706035061) == positive_ratio(27727, 4, 79244008939048815603706035061));
    assert(positive_step(79244008939048815603706035061, positive_factor(4)) == 79307426338960776842885539843);
    assert(positive_ratio(27727, 4, 79244008939048815603706035061) == positive_ratio(13863, 5, 79307426338960776842885539843));
    assert(positive_step(79307426338960776842885539843, positive_factor(5)) == 79434413434441317004961661155);
    assert(positive_ratio(13863, 5, 79307426338960776842885539843) == positive_ratio(6931, 6, 79434413434441317004961661155));
    assert(positive_step(79434413434441317004961661155, positive_factor(6)) == 79688997946402660867703038957);
    assert(positive_ratio(6931, 6, 79434413434441317004961661155) == positive_ratio(3465, 7, 79688997946402660867703038957));
    assert(positive_step(79688997946402660867703038957, positive_factor(7)) == 80200617388689977366536547152);
    assert(positive_ratio(3465, 7, 79688997946402660867703038957) == positive_ratio(1732, 8, 80200617388689977366536547152));
    assert(positive_ratio(1732, 8, 80200617388689977366536547152) == positive_ratio(866, 9, 80200617388689977366536547152));
    assert(positive_ratio(866, 9, 80200617388689977366536547152) == positive_ratio(433, 10, 80200617388689977366536547152));
    assert(positive_step(80200617388689977366536547152, positive_factor(10)) == 84413610726049114366347414816);
    assert(positive_ratio(433, 10, 80200617388689977366536547152) == positive_ratio(216, 11, 84413610726049114366347414816));
    assert(positive_ratio(216, 11, 84413610726049114366347414816) == positive_ratio(108, 12, 84413610726049114366347414816));
    assert(positive_ratio(108, 12, 84413610726049114366347414816) == positive_ratio(54, 13, 84413610726049114366347414816));
    assert(positive_ratio(54, 13, 84413610726049114366347414816) == positive_ratio(27, 14, 84413610726049114366347414816));
    assert(positive_step(84413610726049114366347414816, positive_factor(14)) == 191499978405809145203445059952);
    assert(positive_ratio(27, 14, 84413610726049114366347414816) == positive_ratio(13, 15, 191499978405809145203445059952));
    assert(positive_step(191499978405809145203445059952, positive_factor(15)) == 985555834813563612221638545219);
    assert(positive_ratio(13, 15, 191499978405809145203445059952) == positive_ratio(6, 16, 985555834813563612221638545219));
    assert(positive_ratio(6, 16, 985555834813563612221638545219) == positive_ratio(3, 17, 985555834813563612221638545219));
    assert(positive_step(985555834813563612221638545219, positive_factor(17)) == 691402984567465602855604295835822);
    assert(positive_ratio(3, 17, 985555834813563612221638545219) == positive_ratio(1, 18, 691402984567465602855604295835822));
    assert(positive_step(691402984567465602855604295835822, positive_factor(18)) == 340275971719517849884101479037289023427);
    assert(positive_ratio(1, 18, 691402984567465602855604295835822) == positive_ratio(0, 19, 340275971719517849884101479037289023427));
    assert(positive_ratio(0, 19, 340275971719517849884101479037289023427) == 340275971719517849884101479037289023427);
}

proof fn lemma_sqrt_price_at_smallest_tick()
    ensures
        sqrt_price_at_tick(MIN_TICK_INDEX as int) == MIN_SQRT_PRICE_X64,
{
    assert(negative_ratio(443636, 0, 18446744073709551616) == negative_ratio(221818, 1, 18446744073709551616));
    assert(negative_ratio(221818, 1, 18446744073709551616) == negative_ratio(110909, 2, 18446744073709551616));
    assert(18446744073709551616 * negative_factor(2) / 0x1_0000_0000_0000_0000 == 18443055278223354162);
    assert(negative_ratio(110909, 2, 18446744073709551616) == negative_ratio(55454, 3, 18443055278223354162));
    assert(negative_ratio(55454, 3, 18443055278223354162) == negative_ratio(27727, 4, 18443055278223354162));
    assert(18443055278223354162 * negative_factor(4) / 0x1_0000_0000_0000_0000 == 18428307471288117479);
    assert(negative_ratio(27727, 4, 18443055278223354162) == negative_ratio(13863, 5, 18428307471288117479));
    assert(18428307471288117479 * negative_factor(5) / 0x1_0000_0000_0000_0000 == 18398847226801858501);
    assert(negative_ratio(13863, 5, 18428307471288117479) == negative_ratio(6931, 6, 18398847226801858501));
    assert(18398847226801858501 * negative_factor(6) / 0x1_0000_0000_0000_0000 == 18340067951587015306);
    assert(negative_ratio(6931, 6, 18398847226801858501) == negative_ratio(3465, 7, 18340067951587015306));
    assert(18340067951587015306 * negative_factor(7) / 0x1_0000_0000_0000_0000 == 18223072152272561885);
    assert(negative_ratio(3465, 7, 18340067951587015306) == negative_ratio(1732, 8, 18223072152272561885));
    assert(negative_ratio(1732, 8, 18223072152272561885) == negative_ratio(866, 9, 18223072152272561885));
    assert(negative_ratio(866, 9, 18223072152272561885) == negative_ratio(433, 10, 18223072152272561885));
    assert(18223072152272561885 * negative_factor(10) / 0x1_0000_0000_0000_0000 == 17313578044587773368);
    assert(negative_ratio(433, 10, 18223072152272561885) == negative_ratio(216, 11, 17313578044587773368));
    assert(negative_ratio(216, 11, 17313578044587773368) == negative_ratio(108, 12, 17313578044587773368));
    assert(negative_ratio(108, 12, 17313578044587773368) == negative_ratio(54, 13, 17313578044587773368));
    assert(negative_ratio(54, 13, 17313578044587773368) == negative_ratio(27, 14, 17313578044587773368));
    assert(17313578044587773368 * negative_factor(14) / 0x1_0000_0000_0000_0000 == 7631863196526440527);
    assert(negative_ratio(27, 14, 17313578044587773368) == negative_ratio(13, 15, 7631863196526440527));
    assert(7631863196526440527 * negative_factor(15) / 0x1_0000_0000_0000_0000 == 1482921196045045371);
    assert(negative_ratio(13, 15, 7631863196526440527) == negative_ratio(6, 16, 1482921196045045371));
    assert(negative_ratio(6, 16, 1482921196045045371) == negative_ratio(3, 17, 1482921196045045371));
    assert(1482921196045045371 * negative_factor(17) / 0x1_0000_0000_0000_0000 == 2113820261052536);
    assert(negative_ratio(3, 17, 1482921196045045371) == negative_ratio(1, 18, 2113820261052536));
    assert(2113820261052536 * negative_factor(18) / 0x1_0000_0000_0000_0000 == 4295048016);
    assert(negative_ratio(1, 18, 2113820261052536) == negative_ratio(0, 19, 4295048016));
    assert(negative_ratio(0, 19, 4295048016) == 4295048016);
}

/// The tick that a bisection of the ticks from `low` up to and without `high` finds for
/// `sqrt_price_x64`: the interval is halved until it holds one tick, and of the two
/// halves the upper one is kept where the price of its first tick is at most
/// `sqrt_price_x64`.
pub open spec fn bisect_tick(low: int, high: int, sqrt_price_x64: u128) -> int
    decreases high - low,
{
    if high - low <= 1 {
        low
    } else {
        let mid = low + (high - low) / 2;
        if sqrt_price_at_tick(mid) <= sqrt_price_x64 {
            bisect_tick(mid, high, sqrt_price_x64)
        } else {
            bisect_tick(low, mid, sqrt_price_x64)
        }
    }
}

/// The tick of a square-root price: the one that a bisection of all supported ticks
/// finds.
pub open spec fn tick_at_sqrt_price(sqrt_price_x64: u128) -> int {
    bisect_tick(MIN_TICK_INDEX as int, MAX_TICK_INDEX + 1, sqrt_price_x64)
}

/// The tick of a square-root price.
///
/// It is a tick at which the price mapping passes `sqrt_price_x64`: unless it is the
/// smallest tick, its price is at most `sqrt_price_x64`, and unless it is the largest
/// one, the price of the tick after it is greater.
pub fn tick_index_from_sqrt_price(sqrt_price_x64: u128) -> (tick: i32)
    ensures
        tick == tick_at_sqrt_price(sqrt_price_x64),
        MIN_TICK_INDEX <= tick <= MAX_TICK_INDEX,
        tick == MIN_TICK_INDEX || sqrt_price_at_tick(tick as int) <= sqrt_price_x64,
        tick == MAX_TICK_INDEX || sqrt_price_x64 < sqrt_price_at_tick(tick + 1),
{
    let mut low: i32 = MIN_TICK_INDEX;
    let mut high: i32 = MAX_TICK_INDEX + 1;
    while high - low > 1
        invariant
            MIN_TICK_INDEX <= low < high <= MAX_TICK_INDEX + 1,
            low == MIN_TICK_INDEX || sqrt_price_at_tick(low as int) <= sqrt_price_x64,
            high == MAX_TICK_INDEX + 1 || sqrt_price_x64 < sqrt_price_at_tick(high as int),
            bisect_tick(low as int, high as int, sqrt_price_x64) == tick_at_sqrt_price(
                sqrt_price_x64,
            ),
        decreases high - low,
    {
        let mid: i32 = low + (high - low) / 2;
        if sqrt_price_from_tick_index(mid) <= sqrt_price_x64 {
            low = mid;
        } else {
            high = mid;
        }
    }
    low
}

} // verus!
