//! Double-width unsigned arithmetic.
//!
//! The product of two 128-bit balances needs 256 bits. `Wide` holds such a
//! product exactly, so that `a * b / d` can be computed without an
//! intermediate overflow and rounded in a chosen direction.

use vstd::prelude::*;
use vstd::arithmetic::power2::*;

verus! {

/// 2^64, the base in which a 128-bit word is split into two halves.
pub const HALF: u128 = 0x1_0000_0000_0000_0000;

/// 2^127, the highest bit of a 128-bit word.
pub const TOP_BIT: u128 = 0x8000_0000_0000_0000_0000_0000_0000_0000;

/// 2^128 as a mathematical integer: the weight of the high word of a `Wide`.
pub open spec fn word() -> int {
    0x1_0000_0000_0000_0000_0000_0000_0000_0000int
}

/// Rounded-down quotient of two mathematical integers.
pub open spec fn div_floor(n: int, d: int) -> int {
    n / d
}

/// Rounded-up quotient of two mathematical integers.
pub open spec fn div_ceil(n: int, d: int) -> int {
    (n + d - 1) / d
}

/// An unsigned 256-bit number, `hi * 2^128 + lo`.
#[derive(Clone, Copy, Debug, PartialEq, Eq)]
pub struct Wide {
    pub hi: u128,
    pub lo: u128,
}

impl View for Wide {
    type V = int;

    open spec fn view(&self) -> int {
        self.hi * word() + self.lo
    }
}

/// The product of two halves fits in a word.
proof fn lemma_half_product_bound(x: int, y: int)
    by (nonlinear_arith)
    requires
        0 <= x <= 0xffff_ffff_ffff_ffff,
        0 <= y <= 0xffff_ffff_ffff_ffff,
    ensures
        0 <= x * y <= 0xffff_ffff_ffff_fffe_0000_0000_0000_0001,
{
}

/// The product of two words, written out over their halves.
proof fn lemma_split_product(a1: int, a0: int, b1: int, b0: int, l: int)
    ensures
        (a1 * l + a0) * (b1 * l + b0) == (a1 * b1) * (l * l) + (a0 * b1 + a1 * b0) * l + a0 * b0,
{
    let y = b1 * l + b0;
    assert((a1 * l + a0) * y == (a1 * l) * y + a0 * y) by (nonlinear_arith);
    assert((a1 * l) * y == (a1 * l) * (b1 * l) + (a1 * l) * b0) by (nonlinear_arith)
        requires
            y == b1 * l + b0,
    ;
    assert(a0 * y == a0 * (b1 * l) + a0 * b0) by (nonlinear_arith)
        requires
            y == b1 * l + b0,
    ;
    assert((a1 * l) * (b1 * l) == (a1 * b1) * (l * l)) by (nonlinear_arith);
    assert((a1 * l) * b0 == (a1 * b0) * l) by (nonlinear_arith);
    assert(a0 * (b1 * l) == (a0 * b1) * l) by (nonlinear_arith);
    assert((a0 * b1 + a1 * b0) * l == (a0 * b1) * l + (a1 * b0) * l) by (nonlinear_arith);
}

/// The partial products of two words, gathered into a high and a low word
/// with the carries `c0`, `c1` and `c2`, make up the whole product.
proof fn lemma_recombine(ll: int, lh: int, hl: int, hh: int, c0: int, c1: int, c2: int, h: int)
    by (nonlinear_arith)
    ensures
        ({
            let mid = lh + c0;
            let top = hl + mid - c1 * h;
            (hh + c1 + c2) * (h * h) + ((top - c2 * h) * h + (ll - c0 * h)) == hh * (h * h) + (lh
                + hl) * h + ll
        }),
{
}

impl Wide {
    /// The exact product of two 128-bit words.
    pub fn product(a: u128, b: u128) -> (r: Wide)
        ensures
            r@ == a * b,
    {
        let a0: u128 = a % HALF;
        let a1: u128 = a / HALF;
        let b0: u128 = b % HALF;
        let b1: u128 = b / HALF;
        proof {
            lemma_half_product_bound(a0 as int, b0 as int);
            lemma_half_product_bound(a0 as int, b1 as int);
            lemma_half_product_bound(a1 as int, b0 as int);
            lemma_half_product_bound(a1 as int, b1 as int);
            lemma_split_product(a1 as int, a0 as int, b1 as int, b0 as int, HALF as int);
        }
        let ll: u128 = a0 * b0;
        let lh: u128 = a0 * b1;
        let hl: u128 = a1 * b0;
        let hh: u128 = a1 * b1;
        let mid: u128 = lh + ll / HALF;
        let top: u128 = hl + mid % HALF;
        let lo: u128 = (top % HALF) * HALF + ll % HALF;
        let hi: u128 = hh + mid / HALF + top / HALF;
        proof {
            assert(a as int == a1 * HALF + a0);
            assert(b as int == b1 * HALF + b0);
            assert((HALF as int) * (HALF as int) == word());
            assert(a * b == hh * word() + (lh + hl) * HALF + ll);
            let c0 = ll as int / HALF as int;
            let c1 = mid as int / HALF as int;
            let c2 = top as int / HALF as int;
            assert(ll == c0 * HALF + ll % HALF);
            assert(mid == c1 * HALF + mid % HALF);
            assert(top == c2 * HALF + top % HALF);
            assert(mid == lh + c0);
            assert(top == hl + mid - c1 * HALF);
            assert(hi == hh + c1 + c2);
            assert(lo == (top - c2 * HALF) * HALF + (ll - c0 * HALF));
            lemma_recombine(
                ll as int,
                lh as int,
                hl as int,
                hh as int,
                c0,
                c1,
                c2,
                HALF as int,
            );
        }
        Wide { hi, lo }
    }

    /// Whether `self <= other`.
    pub fn le(&self, other: &Wide) -> (r: bool)
        ensures
            r == (self@ <= other@),
    {
        self.hi < other.hi || (self.hi == other.hi && self.lo <= other.lo)
    }

    /// Whether `self <= k * other`.
    pub fn le_scaled(&self, other: &Wide, k: u128) -> (r: bool)
        ensures
            r == (self@ <= k * other@),
    {
        let low = Wide::product(other.lo, k);
        let high = Wide::product(other.hi, k);
        proof {
            assert(k * other@ == (high.hi * word() + high.lo + low.hi) * word() + low.lo)
                by (nonlinear_arith)
                requires
                    other@ == other.hi * word() + other.lo,
                    high.hi * word() + high.lo == other.hi * k,
                    low.hi * word() + low.lo == other.lo * k,
            ;
        }
        if high.hi > 0 {
            return true;
        }
        match high.lo.checked_add(low.hi) {
            None => true,
            Some(mid) => {
                let scaled = Wide { hi: mid, lo: low.lo };
                self.le(&scaled)
            },
        }
    }

    /// Quotient and remainder of `self` by `d`, for a quotient that fits in
    /// one word: the high word must be below the divisor.
    pub fn div_rem(&self, d: u128) -> (r: (u128, u128))
        requires
            self.hi < d,
        ensures
            r.0 * d + r.1 == self@,
            r.1 < d,
            r.0 == self@ / (d as int),
            r.1 == self@ % (d as int),
    {
        // Long division, one bit of the low word at a time: `rem` is doubled
        // and takes the next bit, and gives up the divisor where it can.
        let mut rem: u128 = self.hi;
        let mut quot: u128 = 0;
        let mut rest: u128 = self.lo;
        let mut i: u32 = 0;
        let ghost mut scale: int = 1;
        let ghost mut qd: int = 0;
        proof {
            lemma2_to64();
        }
        while i < 128
            invariant
                i <= 128,
                scale == pow2(i as nat),
                rem < d,
                qd == quot * d,
                0 <= quot < scale,
                self@ * scale == (qd + rem) * word() + rest,
            decreases 128 - i,
        {
            let bit: u128 = rest / TOP_BIT;
            let carry: u128 = rem / TOP_BIT;
            proof {
                lemma_pow2_unfold((i + 1) as nat);
                if i < 127 {
                    lemma_pow2_strictly_increases(i as nat, 127);
                }
                lemma_pow2_127();
                assert((2 * quot + 1) * d == 2 * qd + d) by (nonlinear_arith)
                    requires
                        qd == quot * d,
                ;
                assert((2 * quot) * d == 2 * qd) by (nonlinear_arith)
                    requires
                        qd == quot * d,
                ;
                assert(self@ * (2 * scale) == 2 * (self@ * scale)) by (nonlinear_arith);
            }
            rest = (rest % TOP_BIT) * 2;
            let doubled: u128 = (rem % TOP_BIT) * 2 + bit;
            if carry == 1 || doubled >= d {
                rem = if carry == 1 {
                    doubled + (u128::MAX - d) + 1
                } else {
                    doubled - d
                };
                quot = quot * 2 + 1;
                proof {
                    qd = 2 * qd + d;
                }
            } else {
                rem = doubled;
                quot = quot * 2;
                proof {
                    qd = 2 * qd;
                }
            }
            i = i + 1;
            proof {
                scale = 2 * scale;
            }
        }
        proof {
            lemma_pow2_128();
            assert(scale == word());
            assert(self@ * word() == (qd + rem) * word() + rest);
            assert((self@ - (qd + rem)) * word() == rest) by (nonlinear_arith)
                requires
                    self@ * word() == (qd + rem) * word() + rest,
            ;
            assert(self@ == qd + rem);
            vstd::arithmetic::div_mod::lemma_fundamental_div_mod_converse(
                self@,
                d as int,
                quot as int,
                rem as int,
            );
        }
        (quot, rem)
    }
}

/// `a * b / d`, rounded down; `None` when `d` is zero or the quotient does
/// not fit in 128 bits.
pub fn mul_div_floor(a: u128, b: u128, d: u128) -> (r: Option<u128>)
    ensures
        match r {
            Some(q) => d > 0 && q == div_floor(a * b, d as int),
            None => d == 0 || div_floor(a * b, d as int) > u128::MAX,
        },
{
    if d == 0 {
        return None;
    }
    let n = Wide::product(a, b);
    if n.hi >= d {
        proof {
            lemma_quotient_overflows(n.hi as int, n.lo as int, d as int);
        }
        return None;
    }
    let (q, _) = n.div_rem(d);
    Some(q)
}

/// `a * b / d`, rounded up; `None` when `d` is zero or the quotient does not
/// fit in 128 bits.
pub fn mul_div_ceil(a: u128, b: u128, d: u128) -> (r: Option<u128>)
    ensures
        match r {
            Some(q) => d > 0 && q == div_ceil(a * b, d as int),
            None => d == 0 || div_ceil(a * b, d as int) > u128::MAX,
        },
{
    if d == 0 {
        return None;
    }
    let n = Wide::product(a, b);
    if n.hi >= d {
        proof {
            lemma_quotient_overflows(n.hi as int, n.lo as int, d as int);
            lemma_ceil_from_parts(n@, d as int);
        }
        return None;
    }
    let (q, rem) = n.div_rem(d);
    proof {
        lemma_ceil_from_parts(n@, d as int);
    }
    if rem == 0 {
        Some(q)
    } else if q == u128::MAX {
        None
    } else {
        Some(q + 1)
    }
}

/// A number whose high word reaches the divisor has a quotient of 2^128 or
/// more.
proof fn lemma_quotient_overflows(hi: int, lo: int, d: int)
    requires
        0 < d <= hi,
        0 <= lo,
    ensures
        (hi * word() + lo) / d >= word(),
{
    assert(d * word() <= hi * word() + lo) by (nonlinear_arith)
        requires
            0 < d <= hi,
            0 <= lo,
            word() > 0,
    ;
    vstd::arithmetic::div_mod::lemma_div_multiples_vanish(word(), d);
    vstd::arithmetic::div_mod::lemma_div_is_ordered(d * word(), hi * word() + lo, d);
}

/// The rounded-up quotient is the rounded-down one, plus one where a
/// remainder is left.
pub proof fn lemma_ceil_from_parts(n: int, d: int)
    requires
        0 <= n,
        0 < d,
    ensures
        div_ceil(n, d) == if n % d == 0 {
            n / d
        } else {
            n / d + 1
        },
        div_ceil(n, d) >= div_floor(n, d),
{
    let q = n / d;
    let r = n % d;
    vstd::arithmetic::div_mod::lemma_fundamental_div_mod(n, d);
    assert(n == d * q + r);
    if r == 0 {
        assert(n + d - 1 == q * d + (d - 1)) by (nonlinear_arith)
            requires
                n == d * q + r,
                r == 0,
        ;
        vstd::arithmetic::div_mod::lemma_fundamental_div_mod_converse(n + d - 1, d, q, d - 1);
    } else {
        assert(n + d - 1 == (q + 1) * d + (r - 1)) by (nonlinear_arith)
            requires
                n == d * q + r,
        ;
        vstd::arithmetic::div_mod::lemma_fundamental_div_mod_converse(n + d - 1, d, q + 1, r - 1);
    }
}

proof fn lemma_pow2_127()
    ensures
        pow2(127) == 0x8000_0000_0000_0000_0000_0000_0000_0000,
{
    lemma2_to64();
    lemma2_to64_rest();
    lemma_pow2_adds(64, 63);
}

proof fn lemma_pow2_128()
    ensures
        pow2(128) == word(),
{
    lemma2_to64();
    lemma2_to64_rest();
    lemma_pow2_adds(64, 64);
}

} // verus!
