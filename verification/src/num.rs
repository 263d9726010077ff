//! Exact numbers for the geometry engine.
//!
//! Executable code computes with [`Frac`], a rational number held as an
//! `i128` numerator over a positive `i128` denominator. Its mathematical
//! model is the ghost pair [`Rat`]; contracts speak of `Rat` values through
//! the spec functions below, where two pairs denote the same rational
//! exactly when they cross-multiply equal.

use vstd::arithmetic::div_mod::{
    lemma_div_is_ordered, lemma_div_multiples_vanish, lemma_fundamental_div_mod,
    lemma_fundamental_div_mod_converse, lemma_mod_bound,
};
use vstd::prelude::*;

verus! {

/// A rational number in ghost form: a numerator over a denominator.
pub ghost struct Rat {
    pub n: int,
    pub d: int,
}

/// The two pairs denote the same rational number.
pub open spec fn rat_eq(a: Rat, b: Rat) -> bool {
    a.n * b.d == b.n * a.d
}

/// `a <= b` as rationals; meaningful when both are well-formed.
pub open spec fn rat_le(a: Rat, b: Rat) -> bool {
    a.n * b.d <= b.n * a.d
}

/// The rational denoted by an integer.
pub open spec fn rat_of_int(i: int) -> Rat {
    Rat { n: i, d: 1 }
}

pub open spec fn rat_add(a: Rat, b: Rat) -> Rat {
    Rat { n: a.n * b.d + b.n * a.d, d: a.d * b.d }
}

pub open spec fn rat_mul(a: Rat, b: Rat) -> Rat {
    Rat { n: a.n * b.n, d: a.d * b.d }
}

/// Magnitude cap that keeps one cross-multiplication inside `i128`.
pub const FRAC_BOUND: i128 = 0x4000_0000_0000_0000;

/// An exact rational number: `num / den` with `den > 0`.
#[derive(Clone, Copy, Debug, PartialEq, Eq, Structural)]
pub struct Frac {
    pub num: i128,
    pub den: i128,
}

impl View for Frac {
    type V = Rat;

    open spec fn view(&self) -> Rat {
        Rat { n: self.num as int, d: self.den as int }
    }
}

impl Frac {
    /// The denominator is positive.
    pub open spec fn wf(self) -> bool {
        self.den > 0
    }

    /// Numerator magnitude and denominator are at most `b`.
    pub open spec fn bounded(self, b: int) -> bool {
        -b <= self.num <= b && 0 < self.den <= b
    }

    /// Build a rational from a numerator and a positive denominator.
    pub fn new(num: i128, den: i128) -> (r: Frac)
        requires
            den > 0,
        ensures
            r.num == num,
            r.den == den,
            r.wf(),
    {
        Frac { num, den }
    }

    /// The rational denoting an integer value.
    pub fn from_int(v: i64) -> (r: Frac)
        ensures
            r.num == v,
            r.den == 1,
            r.wf(),
            r@ == rat_of_int(v as int),
    {
        Frac { num: v as i128, den: 1 }
    }

    /// Exact rational equality (not field equality: `1/2` equals `2/4`).
    pub fn eq_rat(&self, other: &Frac) -> (r: bool)
        requires
            self.bounded(FRAC_BOUND as int),
            other.bounded(FRAC_BOUND as int),
        ensures
            r == rat_eq(self@, other@),
    {
        proof {
            lemma_cross_mul_fits(
                self.num as int,
                self.den as int,
                other.num as int,
                other.den as int,
            );
        }
        self.num * other.den == other.num * self.den
    }

    /// Exact rational comparison.
    pub fn le(&self, other: &Frac) -> (r: bool)
        requires
            self.bounded(FRAC_BOUND as int),
            other.bounded(FRAC_BOUND as int),
        ensures
            r == rat_le(self@, other@),
    {
        proof {
            lemma_cross_mul_fits(
                self.num as int,
                self.den as int,
                other.num as int,
                other.den as int,
            );
        }
        self.num * other.den <= other.num * self.den
    }
}

/// Both cross products of two bounded pairs fit in `i128`.
proof fn lemma_cross_mul_fits(an: int, ad: int, bn: int, bd: int)
    requires
        -FRAC_BOUND <= an <= FRAC_BOUND,
        0 < ad <= FRAC_BOUND,
        -FRAC_BOUND <= bn <= FRAC_BOUND,
        0 < bd <= FRAC_BOUND,
    ensures
        i128::MIN <= an * bd <= i128::MAX,
        i128::MIN <= bn * ad <= i128::MAX,
{
    assert(-(0x4000_0000_0000_0000 * 0x4000_0000_0000_0000) <= an * bd <= 0x4000_0000_0000_0000
        * 0x4000_0000_0000_0000) by (nonlinear_arith)
        requires
            -0x4000_0000_0000_0000 <= an <= 0x4000_0000_0000_0000,
            0 < bd <= 0x4000_0000_0000_0000,
    ;
    assert(-(0x4000_0000_0000_0000 * 0x4000_0000_0000_0000) <= bn * ad <= 0x4000_0000_0000_0000
        * 0x4000_0000_0000_0000) by (nonlinear_arith)
        requires
            -0x4000_0000_0000_0000 <= bn <= 0x4000_0000_0000_0000,
            0 < ad <= 0x4000_0000_0000_0000,
    ;
}

/// Bounds on a product from bounds on its factors.
#[verifier::nonlinear]
pub proof fn lemma_mul_bounds(x: int, y: int, bx: int, by: int)
    requires
        -bx <= x <= bx,
        -by <= y <= by,
    ensures
        -(bx * by) <= x * y <= bx * by,
{
}

/// Magnitude cap on the arguments of [`div_floor`].
pub const DIV_BOUND: i128 = 0x40_0000_0000_0000_0000_0000_0000_0000;

/// Floor division of `a` by a positive `b`: the result is the mathematical
/// quotient rounded toward negative infinity, which is exactly the
/// Euclidean quotient `a / b` of the specification language.
pub fn div_floor(a: i128, b: i128) -> (r: i128)
    requires
        0 < b <= DIV_BOUND,
        -DIV_BOUND <= a <= DIV_BOUND,
    ensures
        r == a as int / b as int,
{
    if a >= 0 {
        let q: u128 = (a as u128) / (b as u128);
        proof {
            lemma_div_is_ordered(0, a as int, b as int);
            lemma_div_is_ordered(a as int, DIV_BOUND as int, b as int);
            lemma_div_nonincreasing_pos(a as int, b as int);
        }
        q as i128
    } else {
        let m: u128 = (-a) as u128;
        let bu: u128 = b as u128;
        let q: u128 = (m + bu - 1) / bu;
        proof {
            lemma_neg_div_floor(a as int, b as int);
            lemma_div_nonincreasing_pos((m + bu - 1) as int, b as int);
        }
        -(q as i128)
    }
}

/// For nonnegative `a` and positive `b`, the quotient is at most `a`.
proof fn lemma_div_nonincreasing_pos(a: int, b: int)
    requires
        0 <= a,
        0 < b,
    ensures
        0 <= a / b <= a,
{
    lemma_div_is_ordered(0, a, b);
    assert(a / b <= a / 1) by {
        vstd::arithmetic::div_mod::lemma_div_is_ordered_by_denominator(a, 1, b);
    }
    lemma_div_multiples_vanish(a, 1);
}

/// Floor division of a negative value via the ceiling of its magnitude:
/// `a / b == -((-a + b - 1) / b)` for `a < 0 < b`.
proof fn lemma_neg_div_floor(a: int, b: int)
    requires
        a < 0,
        0 < b,
    ensures
        a / b == -((-a + b - 1) / b),
{
    let q = a / b;
    let r = a % b;
    lemma_fundamental_div_mod(a, b);
    lemma_mod_bound(a, b);
    // -a + b - 1 == b * (-q) + (b - 1 - r), with the remainder in [0, b)
    assert(b * (-q) == -(b * q)) by (nonlinear_arith);
    assert(-a + b - 1 == b * (-q) + (b - 1 - r)) by {
        assert(a == b * q + r);
    }
    lemma_fundamental_div_mod_converse(-a + b - 1, b, -q, b - 1 - r);
}

/// A quotient is bracketed by any multiple bracket of its dividend:
/// if `-b * m <= a <= b * m` then `-m <= a / b <= m`.
pub proof fn lemma_div_in_range(a: int, b: int, m: int)
    requires
        b >= 1,
        0 <= m,
        -(b * m) <= a <= b * m,
    ensures
        -m <= a / b <= m,
{
    lemma_div_is_ordered(-(b * m), a, b);
    lemma_div_is_ordered(a, b * m, b);
    lemma_div_multiples_vanish(m, b);
    lemma_div_multiples_vanish(-m, b);
    assert(b * (-m) == -(b * m)) by (nonlinear_arith);
}

/// Integer square root: the greatest `r` with `r * r <= n`.
pub fn isqrt(n: u128) -> (r: u128)
    requires
        n < 0x4000_0000_0000_0000_0000_0000_0000_0000,
    ensures
        r * r <= n,
        n < (r + 1) * (r + 1),
{
    let mut lo: u128 = 0;
    let mut hi: u128 = 0x8000_0000_0000_0000;
    proof {
        assert(0x8000_0000_0000_0000u128 * 0x8000_0000_0000_0000u128
            == 0x4000_0000_0000_0000_0000_0000_0000_0000) by (nonlinear_arith);
    }
    while lo + 1 < hi
        invariant
            lo < hi <= 0x8000_0000_0000_0000,
            lo * lo <= n,
            n < hi * hi,
        decreases hi - lo,
    {
        let mid: u128 = lo + (hi - lo) / 2;
        proof {
            assert(mid * mid <= 0x8000_0000_0000_0000 * 0x8000_0000_0000_0000)
                by (nonlinear_arith)
                requires
                    0 <= mid <= 0x8000_0000_0000_0000u128,
            ;
        }
        if mid * mid <= n {
            lo = mid;
        } else {
            hi = mid;
        }
    }
    lo
}

} // verus!
