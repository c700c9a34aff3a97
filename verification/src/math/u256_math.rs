use crate::errors::ErrorCode;
use vstd::arithmetic::div_mod::lemma_fundamental_div_mod_converse;
use vstd::prelude::*;

verus! {

/// `2^64` as an executable constant.
pub const WORD: u128 = 0x1_0000_0000_0000_0000;

/// `2^127` as an executable constant.
pub const HALF: u128 = 0x8000_0000_0000_0000_0000_0000_0000_0000;

/// `2^64`.
pub open spec fn pow2_64() -> int {
    0x1_0000_0000_0000_0000int
}

/// `2^128`.
pub open spec fn pow2_128() -> int {
    0x1_0000_0000_0000_0000_0000_0000_0000_0000int
}

/// `2^192`.
pub open spec fn pow2_192() -> int {
    0x1_0000_0000_0000_0000_0000_0000_0000_0000_0000_0000_0000_0000int
}

/// `2^256`.
pub open spec fn pow2_256() -> int {
    0x1_0000_0000_0000_0000_0000_0000_0000_0000_0000_0000_0000_0000_0000_0000_0000_0000int
}

/// An unsigned 256-bit integer, held as two 128-bit halves.
///
/// Its view is the number it stands for.
#[derive(Clone, Copy, Debug)]
pub struct U256Muldiv {
    pub hi: u128,
    pub lo: u128,
}

impl View for U256Muldiv {
    type V = int;

    open spec fn view(&self) -> int {
        self.hi * pow2_128() + self.lo
    }
}

impl U256Muldiv {
    /// The number `h * 2^128 + l`.
    pub fn new(h: u128, l: u128) -> (r: U256Muldiv)
        ensures
            r@ == h * pow2_128() + l,
    {
        U256Muldiv { hi: h, lo: l }
    }

    /// Whether the number is zero.
    pub fn is_zero(&self) -> (r: bool)
        ensures
            r == (self@ == 0),
    {
        self.hi == 0 && self.lo == 0
    }

    /// Whether the two numbers are equal.
    pub fn eq(&self, other: U256Muldiv) -> (r: bool)
        ensures
            r == (self@ == other@),
    {
        self.hi == other.hi && self.lo == other.lo
    }

    /// Whether the number is less than `other`.
    pub fn lt(&self, other: U256Muldiv) -> (r: bool)
        ensures
            r == (self@ < other@),
    {
        self.hi < other.hi || (self.hi == other.hi && self.lo < other.lo)
    }

    /// Whether the number is at most `other`.
    pub fn lte(&self, other: U256Muldiv) -> (r: bool)
        ensures
            r == (self@ <= other@),
    {
        self.hi < other.hi || (self.hi == other.hi && self.lo <= other.lo)
    }

    /// Whether the number is greater than `other`.
    pub fn gt(&self, other: U256Muldiv) -> (r: bool)
        ensures
            r == (self@ > other@),
    {
        other.lt(*self)
    }

    /// Whether the number is at least `other`.
    pub fn gte(&self, other: U256Muldiv) -> (r: bool)
        ensures
            r == (self@ >= other@),
    {
        other.lte(*self)
    }

    /// Narrows to 128 bits; fails when the value does not fit.
    pub fn try_into_u128(&self) -> (r: Result<u128, ErrorCode>)
        ensures
            self@ < pow2_128() ==> r == Ok::<u128, ErrorCode>(self@ as u128),
            self@ >= pow2_128() ==> r == Err::<u128, ErrorCode>(ErrorCode::NumberDownCastError),
    {
        if self.hi == 0 {
            Ok(self.lo)
        } else {
            Err(ErrorCode::NumberDownCastError)
        }
    }

    /// Addition modulo `2^256`.
    pub fn add(&self, other: U256Muldiv) -> (r: U256Muldiv)
        ensures
            r@ == (self@ + other@) % pow2_256(),
    {
        let lo: u128 = self.lo.wrapping_add(other.lo);
        let carry: u128 = if lo < self.lo { 1 } else { 0 };
        let hi: u128 = self.hi.wrapping_add(other.hi).wrapping_add(carry);
        let r = U256Muldiv { hi, lo };
        proof {
            let sum = self@ + other@;
            let k: int = if self.hi + other.hi + carry >= pow2_128() { 1 } else { 0 };
            assert(sum == pow2_256() * k + r@);
            lemma_fundamental_div_mod_converse(sum, pow2_256(), k, r@);
        }
        r
    }

    /// Subtraction modulo `2^256`.
    pub fn sub(&self, other: U256Muldiv) -> (r: U256Muldiv)
        ensures
            r@ == (self@ - other@) % pow2_256(),
    {
        let lo: u128 = self.lo.wrapping_sub(other.lo);
        let borrow: u128 = if self.lo < other.lo { 1 } else { 0 };
        let hi: u128 = self.hi.wrapping_sub(other.hi).wrapping_sub(borrow);
        let r = U256Muldiv { hi, lo };
        proof {
            let diff = self@ - other@;
            let k: int = if self.hi - other.hi - borrow < 0 { -1 } else { 0 };
            assert(diff == pow2_256() * k + r@);
            lemma_fundamental_div_mod_converse(diff, pow2_256(), k, r@);
        }
        r
    }

    /// Shifts left by one 64-bit word, dropping what leaves the 256 bits.
    pub fn shift_word_left(&self) -> (r: U256Muldiv)
        ensures
            r@ == (self@ * pow2_64()) % pow2_256(),
    {
        let hi: u128 = (self.hi % WORD) * WORD + self.lo / WORD;
        let lo: u128 = (self.lo % WORD) * WORD;
        let r = U256Muldiv { hi, lo };
        proof {
            let k: int = (self.hi / WORD) as int;
            assert(self@ * pow2_64() == pow2_256() * k + r@);
            lemma_fundamental_div_mod_converse(self@ * pow2_64(), pow2_256(), k, r@);
        }
        r
    }

    /// Shifts left by one 64-bit word; `None` when a set bit would leave the 256 bits.
    pub fn checked_shift_word_left(&self) -> (r: Option<U256Muldiv>)
        ensures
            self@ >= pow2_192() <==> r is None,
            r matches Some(v) ==> v@ == self@ * pow2_64(),
    {
        if self.hi / WORD != 0 {
            None
        } else {
            let hi: u128 = self.hi * WORD + self.lo / WORD;
            let lo: u128 = (self.lo % WORD) * WORD;
            Some(U256Muldiv { hi, lo })
        }
    }

    /// Shifts right by one 64-bit word.
    pub fn shift_word_right(&self) -> (r: U256Muldiv)
        ensures
            r@ == self@ / pow2_64(),
    {
        let hi: u128 = self.hi / WORD;
        let lo: u128 = (self.hi % WORD) * WORD + self.lo / WORD;
        U256Muldiv { hi, lo }
    }

    /// Quotient and remainder by doubling the divisor: the quotient by `2 * d` is found
    /// first, then doubled and corrected by at most one.
    fn div_rem(&self, d: U256Muldiv) -> (r: (U256Muldiv, U256Muldiv))
        requires
            d@ > 0,
        ensures
            self@ == r.0@ * d@ + r.1@,
            0 <= r.1@ < d@,
        decreases pow2_256() - d@,
    {
        if self.lt(d) {
            let q = U256Muldiv { hi: 0, lo: 0 };
            assert(q@ * d@ == 0) by (nonlinear_arith)
                requires
                    q@ == 0,
            ;
            (q, *self)
        } else if d.hi >= HALF {
            let q = U256Muldiv { hi: 0, lo: 1 };
            let rest = self.sub(d);
            assert(q@ * d@ == d@) by (nonlinear_arith)
                requires
                    q@ == 1,
            ;
            assert(rest@ == self@ - d@);
            (q, rest)
        } else {
            let d2 = d.add(d);
            assert(d2@ == 2 * d@);
            let (q2, r2) = self.div_rem(d2);
            proof {
                lemma_doubled_divisor(self@, d@, q2@, r2@);
            }
            let q = q2.add(q2);
            assert(q@ == 2 * q2@);
            if r2.gte(d) {
                let q1 = q.add(U256Muldiv { hi: 0, lo: 1 });
                let r1 = r2.sub(d);
                assert(q1@ == q@ + 1);
                assert(r1@ == r2@ - d@);
                (q1, r1)
            } else {
                (q, r2)
            }
        }
    }

    /// Division with remainder. The remainder is computed only on request; without it
    /// the second component is zero.
    pub fn div(&self, divisor: U256Muldiv, return_remainder: bool) -> (r: (U256Muldiv, U256Muldiv))
        requires
            divisor@ != 0,
        ensures
            r.0@ == self@ / divisor@,
            r.1@ == if return_remainder {
                self@ % divisor@
            } else {
                0
            },
    {
        let (q, rem) = self.div_rem(divisor);
        proof {
            lemma_fundamental_div_mod_converse(self@, divisor@, q@, rem@);
        }
        if return_remainder {
            (q, rem)
        } else {
            (q, U256Muldiv { hi: 0, lo: 0 })
        }
    }
}

/// The full 256-bit product of two 128-bit numbers.
pub fn mul_u256(v: u128, n: u128) -> (r: U256Muldiv)
    ensures
        r@ == v * n,
{
    let v0: u128 = v % WORD;
    let v1: u128 = v / WORD;
    let n0: u128 = n % WORD;
    let n1: u128 = n / WORD;
    proof {
        lemma_word_product(v0, n0);
        lemma_word_product(v0, n1);
        lemma_word_product(v1, n0);
        lemma_word_product(v1, n1);
    }
    let ll: u128 = v0 * n0;
    let lh: u128 = v0 * n1;
    let hl: u128 = v1 * n0;
    let hh: u128 = v1 * n1;
    let base = U256Muldiv { hi: hh, lo: ll };
    let mid0 = U256Muldiv { hi: lh / WORD, lo: (lh % WORD) * WORD };
    let mid1 = U256Muldiv { hi: hl / WORD, lo: (hl % WORD) * WORD };
    proof {
        assert(v * n == hh * pow2_128() + (lh + hl) * pow2_64() + ll) by (nonlinear_arith)
            requires
                v == v1 * pow2_64() + v0,
                n == n1 * pow2_64() + n0,
                ll == v0 * n0,
                lh == v0 * n1,
                hl == v1 * n0,
                hh == v1 * n1,
                pow2_128() == pow2_64() * pow2_64(),
        ;
        assert(v * n < pow2_256()) by (nonlinear_arith)
            requires
                0 <= v < pow2_128(),
                0 <= n < pow2_128(),
                pow2_256() == pow2_128() * pow2_128(),
        ;
        assert(mid0@ == lh * pow2_64());
        assert(mid1@ == hl * pow2_64());
    }
    base.add(mid0).add(mid1)
}

/// From the quotient and remainder by `2 * d` to those by `d`.
proof fn lemma_doubled_divisor(n: int, d: int, q2: int, r2: int)
    by (nonlinear_arith)
    requires
        n == q2 * (2 * d) + r2,
        0 <= r2 < 2 * d,
        d > 0,
        q2 >= 0,
    ensures
        2 * q2 <= n,
        n == (2 * q2) * d + r2,
        n == (2 * q2 + 1) * d + (r2 - d),
{
}

/// The product of two 64-bit numbers fits into 128 bits.
proof fn lemma_word_product(a: u128, b: u128)
    requires
        a < pow2_64(),
        b < pow2_64(),
    ensures
        a * b <= 0xFFFF_FFFF_FFFF_FFFE_0000_0000_0000_0001,
{
    assert(a * b <= 0xFFFF_FFFF_FFFF_FFFF * 0xFFFF_FFFF_FFFF_FFFF) by (nonlinear_arith)
        requires
            0 <= a <= 0xFFFF_FFFF_FFFF_FFFF,
            0 <= b <= 0xFFFF_FFFF_FFFF_FFFF,
    ;
}

} // verus!
