//! Scales: mappings from a domain value to a pixel-space coordinate.
//!
//! Three variants. A linear scale is an affine map from a numeric interval
//! to a pixel range. A band scale partitions the range into equal-width
//! slots, one per category, with configurable inner and outer padding. A
//! point scale places categories at evenly spaced single coordinates.
//!
//! Every position is returned as an exact rational ([`Frac`]) in sub-pixel
//! units. No scale mutates after construction.

use crate::num::{
    lemma_mul_bounds, rat_add, rat_eq, rat_le, rat_mul, rat_of_int, Frac, Rat,
};
use crate::{in_coord_range, COORD_LIMIT};
use vstd::prelude::*;

verus! {

/// Magnitude bound satisfied by every position a scale returns.
pub const TICK_BOUND: i128 = 100_000_000_000_000_000_000_000_000_000;

/// Largest number of categories a band or point scale accepts.
pub const DOMAIN_LIMIT: usize = 10_000;

/// Largest denominator accepted for a padding fraction: paddings are
/// resolved in thousandths of one step.
pub const PADDING_DEN_LIMIT: i128 = 1_000;

/// An affine map from the numeric interval `[d0, d1]` onto the pixel
/// range `[r0, r1]`, all in sub-pixel units.
#[derive(Clone, Copy, Debug, PartialEq, Eq, Structural)]
pub struct ScaleLinear {
    pub d0: i64,
    pub d1: i64,
    pub r0: i64,
    pub r1: i64,
}

impl ScaleLinear {
    /// All four endpoints are in coordinate range.
    pub open spec fn wf(self) -> bool {
        &&& in_coord_range(self.d0 as int)
        &&& in_coord_range(self.d1 as int)
        &&& in_coord_range(self.r0 as int)
        &&& in_coord_range(self.r1 as int)
    }

    /// The exact position of domain value `v`:
    /// `r0 + (v - d0) * (r1 - r0) / (d1 - d0)`.
    ///
    /// A zero-width domain is degenerate; the documented fallback maps
    /// every value to `r0` rather than dividing by zero.
    pub open spec fn tick_rat(self, v: int) -> Rat {
        let dd = self.d1 - self.d0;
        let num = self.r0 * dd + (v - self.d0) * (self.r1 - self.r0);
        if dd > 0 {
            Rat { n: num, d: dd }
        } else if dd < 0 {
            Rat { n: -num, d: -dd }
        } else {
            rat_of_int(self.r0 as int)
        }
    }

    /// Build a linear scale from a two-element domain and a two-element
    /// range, as `[min, max]` value pairs.
    pub fn new(domain: Vec<i64>, range: Vec<i64>) -> (r: ScaleLinear)
        requires
            domain.len() == 2,
            range.len() == 2,
            in_coord_range(domain[0] as int),
            in_coord_range(domain[1] as int),
            in_coord_range(range[0] as int),
            in_coord_range(range[1] as int),
        ensures
            r.d0 == domain[0],
            r.d1 == domain[1],
            r.r0 == range[0],
            r.r1 == range[1],
            r.wf(),
    {
        ScaleLinear { d0: domain[0], d1: domain[1], r0: range[0], r1: range[1] }
    }

    /// Map a domain value to its exact pixel position. Always succeeds; a
    /// degenerate (zero-width) domain yields the constant `r0`.
    pub fn tick(&self, value: &i64) -> (r: Option<Frac>)
        requires
            self.wf(),
            in_coord_range(*value as int),
        ensures
            r is Some,
            r matches Some(f) ==> {
                &&& f.wf()
                &&& f.bounded(TICK_BOUND as int)
                &&& f@ == self.tick_rat(*value as int)
            },
    {
        let dd: i128 = self.d1 as i128 - self.d0 as i128;
        proof {
            lemma_mul_bounds(
                self.r0 as int,
                dd as int,
                COORD_LIMIT as int,
                2 * COORD_LIMIT as int,
            );
            lemma_mul_bounds(
                *value - self.d0,
                self.r1 - self.r0,
                2 * COORD_LIMIT as int,
                2 * COORD_LIMIT as int,
            );
        }
        let num: i128 = self.r0 as i128 * dd + (*value as i128 - self.d0 as i128) * (self.r1
            as i128 - self.r0 as i128);
        if dd > 0 {
            Some(Frac::new(num, dd))
        } else if dd < 0 {
            Some(Frac::new(-num, -dd))
        } else {
            Some(Frac::from_int(self.r0))
        }
    }
}

/// The ends of a non-degenerate domain map exactly onto the ends of the
/// range: `tick(d0)` is `r0` and `tick(d1)` is `r1`, as rationals. (A
/// zero-width domain instead maps both ends to the fallback `r0`.)
pub proof fn lemma_linear_tick_endpoints(s: ScaleLinear)
    requires
        s.wf(),
        s.d0 != s.d1,
    ensures
        rat_eq(s.tick_rat(s.d0 as int), rat_of_int(s.r0 as int)),
        rat_eq(s.tick_rat(s.d1 as int), rat_of_int(s.r1 as int)),
{
    let dd = s.d1 - s.d0;
    assert((s.d0 - s.d0) * (s.r1 - s.r0) == 0) by (nonlinear_arith);
    assert(s.r0 * dd + (s.d1 - s.d0) * (s.r1 - s.r0) == s.r1 * dd) by (nonlinear_arith)
        requires
            dd == s.d1 - s.d0,
    ;
    let n0 = s.r0 * dd;
    let n1 = s.r1 * dd;
    if dd < 0 {
        assert((-n0) * 1 == s.r0 * (-dd)) by (nonlinear_arith)
            requires
                n0 == s.r0 * dd,
        ;
        assert((-n1) * 1 == s.r1 * (-dd)) by (nonlinear_arith)
            requires
                n1 == s.r1 * dd,
        ;
    } else if dd > 0 {
        assert(n0 * 1 == s.r0 * dd) by (nonlinear_arith)
            requires
                n0 == s.r0 * dd,
        ;
        assert(n1 * 1 == s.r1 * dd) by (nonlinear_arith)
            requires
                n1 == s.r1 * dd,
        ;
    }
}

/// With a descending domain and an ascending range, positions run the
/// other way: the map again follows the domain-to-range sign.
pub proof fn lemma_linear_tick_monotone_rev(s: ScaleLinear, v: int, w: int)
    requires
        s.wf(),
        v <= w,
        s.d1 < s.d0,
        s.r0 <= s.r1,
    ensures
        rat_le(s.tick_rat(w), s.tick_rat(v)),
{
    let dd = s.d1 - s.d0;
    let nv = s.r0 * dd + (v - s.d0) * (s.r1 - s.r0);
    let nw = s.r0 * dd + (w - s.d0) * (s.r1 - s.r0);
    assert((v - s.d0) * (s.r1 - s.r0) <= (w - s.d0) * (s.r1 - s.r0)) by (nonlinear_arith)
        requires
            v <= w,
            s.r1 - s.r0 >= 0,
    ;
    assert((-nw) * (-dd) <= (-nv) * (-dd)) by (nonlinear_arith)
        requires
            nv <= nw,
            dd < 0,
    ;
}

/// With a descending domain and a descending range, positions rise with
/// the domain value: the two reversals cancel.
pub proof fn lemma_linear_tick_antitone_rev(s: ScaleLinear, v: int, w: int)
    requires
        s.wf(),
        v <= w,
        s.d1 < s.d0,
        s.r0 >= s.r1,
    ensures
        rat_le(s.tick_rat(v), s.tick_rat(w)),
{
    let dd = s.d1 - s.d0;
    let nv = s.r0 * dd + (v - s.d0) * (s.r1 - s.r0);
    let nw = s.r0 * dd + (w - s.d0) * (s.r1 - s.r0);
    assert((w - s.d0) * (s.r1 - s.r0) <= (v - s.d0) * (s.r1 - s.r0)) by (nonlinear_arith)
        requires
            v <= w,
            s.r1 - s.r0 <= 0,
    ;
    assert((-nv) * (-dd) <= (-nw) * (-dd)) by (nonlinear_arith)
        requires
            nw <= nv,
            dd < 0,
    ;
}

/// A categorical scale that partitions the pixel range `[r0, r1]` into
/// one equal-width slot per category, separated by inner padding and
/// framed by outer padding, both given as fractions of one step.
#[derive(Clone, Debug)]
pub struct ScaleBand {
    pub domain: Vec<i64>,
    pub r0: i64,
    pub r1: i64,
    pub pad_inner: Frac,
    pub pad_outer: Frac,
}

/// A padding fraction: a rational in `[0, 1)` resolved in at most
/// thousandths.
pub open spec fn padding_wf(p: Frac) -> bool {
    0 <= p.num < p.den <= PADDING_DEN_LIMIT
}

impl ScaleBand {
    pub open spec fn wf(self) -> bool {
        &&& self.domain.len() <= DOMAIN_LIMIT
        &&& in_coord_range(self.r0 as int)
        &&& in_coord_range(self.r1 as int)
        &&& padding_wf(self.pad_inner)
        &&& padding_wf(self.pad_outer)
    }

    /// Common denominator of the two padding fractions.
    pub open spec fn q(self) -> int {
        self.pad_inner.den * self.pad_outer.den
    }

    /// Inner padding numerator over the common denominator.
    pub open spec fn pi_c(self) -> int {
        self.pad_inner.num * self.pad_outer.den
    }

    /// Outer padding numerator over the common denominator.
    pub open spec fn po_c(self) -> int {
        self.pad_outer.num * self.pad_inner.den
    }

    /// Signed width of the pixel range.
    pub open spec fn width(self) -> int {
        self.r1 - self.r0
    }

    /// Number of step units covering the range, over the common
    /// denominator: `N - padding_inner + 2 * padding_outer`.
    pub open spec fn denom(self) -> int {
        self.domain.len() * self.q() - self.pi_c() + 2 * self.po_c()
    }

    /// One step: `width / (N - padding_inner + 2 * padding_outer)`.
    pub open spec fn step_rat(self) -> Rat {
        Rat { n: self.width() * self.q(), d: self.denom() }
    }

    /// Resolved slot width: `step * (1 - padding_inner)`.
    pub open spec fn band_width_rat(self) -> Rat {
        Rat { n: self.width() * (self.q() - self.pi_c()), d: self.denom() }
    }

    /// Left edge of slot `i`: `r0 + step * (padding_outer + i)`.
    pub open spec fn pos_rat(self, i: int) -> Rat {
        Rat {
            n: self.r0 * self.denom() + self.width() * (self.po_c() + i * self.q()),
            d: self.denom(),
        }
    }

    /// With at least one category the step denominator is positive, and
    /// the common padding denominator dominates both numerators.
    proof fn lemma_denom_pos(self)
        requires
            self.wf(),
            self.domain.len() >= 1,
        ensures
            0 < self.denom() <= 10_002_000_000,
            0 < self.q() <= 1_000_000,
            0 <= self.pi_c() < self.q(),
            0 <= self.po_c() < self.q(),
    {
        let pin = self.pad_inner.num as int;
        let pid = self.pad_inner.den as int;
        let pon = self.pad_outer.num as int;
        let pod = self.pad_outer.den as int;
        assert(0 < pid * pod <= 1_000_000) by (nonlinear_arith)
            requires
                0 < pid <= 1000,
                0 < pod <= 1000,
        ;
        assert(0 <= pin * pod < pid * pod) by (nonlinear_arith)
            requires
                0 <= pin < pid,
                0 < pod,
        ;
        assert(0 <= pon * pid < pod * pid) by (nonlinear_arith)
            requires
                0 <= pon < pod,
                0 < pid,
        ;
        assert(self.q() <= self.domain.len() * self.q()) by (nonlinear_arith)
            requires
                self.q() > 0,
                self.domain.len() >= 1,
        ;
        assert(self.domain.len() * self.q() <= 10_000 * 1_000_000) by (nonlinear_arith)
            requires
                0 < self.q() <= 1_000_000,
                self.domain.len() <= 10_000,
        ;
    }

    /// Build a band scale over the given categories and a two-element
    /// pixel range. Both paddings start at zero.
    pub fn new(domain: Vec<i64>, range: Vec<i64>) -> (r: ScaleBand)
        requires
            domain.len() <= DOMAIN_LIMIT,
            range.len() == 2,
            in_coord_range(range[0] as int),
            in_coord_range(range[1] as int),
        ensures
            r.domain@ == domain@,
            r.r0 == range[0],
            r.r1 == range[1],
            r.pad_inner.num == 0 && r.pad_inner.den == 1,
            r.pad_outer.num == 0 && r.pad_outer.den == 1,
            r.wf(),
    {
        let r0: i64 = range[0];
        let r1: i64 = range[1];
        ScaleBand {
            domain,
            r0,
            r1,
            pad_inner: Frac::new(0, 1),
            pad_outer: Frac::new(0, 1),
        }
    }

    /// Set the inner padding: the fraction of one step left as a gap
    /// between adjacent slots.
    pub fn padding_inner(self, padding: Frac) -> (r: ScaleBand)
        requires
            padding_wf(padding),
        ensures
            r == (ScaleBand { pad_inner: padding, ..self }),
    {
        ScaleBand { pad_inner: padding, ..self }
    }

    /// Set the outer padding: the fraction of one step left as a gap at
    /// each end of the range.
    pub fn padding_outer(self, padding: Frac) -> (r: ScaleBand)
        requires
            padding_wf(padding),
        ensures
            r == (ScaleBand { pad_outer: padding, ..self }),
    {
        ScaleBand { pad_outer: padding, ..self }
    }

    /// The resolved width of one slot, exactly
    /// `step * (1 - padding_inner)`.
    pub fn band_width(&self) -> (r: Frac)
        requires
            self.wf(),
            self.domain.len() >= 1,
        ensures
            r.wf(),
            r.bounded(TICK_BOUND as int),
            r@ == self.band_width_rat(),
    {
        proof {
            self.lemma_denom_pos();
        }
        let q: i128 = self.pad_inner.den * self.pad_outer.den;
        let pi_c: i128 = self.pad_inner.num * self.pad_outer.den;
        let po_c: i128 = self.pad_outer.num * self.pad_inner.den;
        let denom: i128 = (self.domain.len() as i128) * q - pi_c + 2 * po_c;
        let w: i128 = self.r1 as i128 - self.r0 as i128;
        proof {
            lemma_mul_bounds(self.domain.len() as int, q as int, 10_000, 1_000_000);
            lemma_mul_bounds(
                w as int,
                q as int - pi_c as int,
                2 * COORD_LIMIT as int,
                1_000_000,
            );
        }
        let num: i128 = w * (q - pi_c);
        Frac::new(num, denom)
    }

    /// Map a category to the left edge of its slot. The result is present
    /// exactly when the category occurs in the domain; the first matching
    /// index decides the slot.
    pub fn tick(&self, value: &i64) -> (r: Option<Frac>)
        requires
            self.wf(),
        ensures
            (r is Some) == self.domain@.contains(*value),
            r matches Some(f) ==> {
                &&& f.wf()
                &&& f.bounded(TICK_BOUND as int)
                &&& f@ == self.pos_rat(self.domain@.index_of_first(*value).unwrap())
            },
    {
        let n: usize = self.domain.len();
        let mut i: usize = 0;
        while i < n
            invariant
                self.wf(),
                n == self.domain.len(),
                i <= n,
                forall|j: int| 0 <= j < i ==> self.domain@[j] != *value,
            decreases n - i,
        {
            if self.domain[i] == *value {
                proof {
                    assert(self.domain@.contains(*value)) by {
                        assert(self.domain@[i as int] == *value);
                    }
                    self.domain@.index_of_first_ensures(*value);
                    let idx = self.domain@.index_of_first(*value).unwrap();
                    if idx < i as int {
                        assert(self.domain@[idx] != *value);
                    } else if idx > i as int {
                        assert(self.domain@[i as int] != *value);
                    }
                    assert(idx == i as int);
                    self.lemma_denom_pos();
                }
                let q: i128 = self.pad_inner.den * self.pad_outer.den;
                let pi_c: i128 = self.pad_inner.num * self.pad_outer.den;
                let po_c: i128 = self.pad_outer.num * self.pad_inner.den;
                let denom: i128 = (n as i128) * q - pi_c + 2 * po_c;
                let w: i128 = self.r1 as i128 - self.r0 as i128;
                proof {
                    lemma_mul_bounds(n as int, q as int, 10_000, 1_000_000);
                    lemma_mul_bounds(self.r0 as int, denom as int, COORD_LIMIT as int,
                        10_002_000_000);
                    lemma_mul_bounds(i as int, q as int, 10_000, 1_000_000);
                    lemma_mul_bounds(
                        w as int,
                        po_c + (i as int) * (q as int),
                        2 * COORD_LIMIT as int,
                        10_001_000_000,
                    );
                }
                let num: i128 = self.r0 as i128 * denom + w * (po_c + (i as i128) * q);
                return Some(Frac::new(num, denom));
            }
            i += 1;
        }
        proof {
            self.domain@.index_of_first_ensures(*value);
        }
        None
    }
}

impl ScaleBand {
    /// Distance between slot position `i` and the coordinate `t`, as a
    /// numerator over the positive common denominator `denom * t.d`.
    pub open spec fn dist_num(self, i: int, t: Rat) -> int {
        abs_int(self.pos_rat(i).n * t.d - t.n * self.pos_rat(i).d)
    }

    /// Inverse lookup over slot positions: the first category index whose
    /// slot is nearest to the given coordinate. An empty domain yields 0.
    pub fn least_index(&self, tick: Frac) -> (r: usize)
        requires
            self.wf(),
            tick.wf(),
            tick.den <= 1_000_000,
            -1_000_000_000_000_000_000 <= tick.num <= 1_000_000_000_000_000_000,
        ensures
            self.domain.len() == 0 ==> r == 0,
            self.domain.len() >= 1 ==> {
                &&& r < self.domain.len()
                &&& forall|i: int|
                    0 <= i < self.domain.len() ==> self.dist_num(r as int, tick@)
                        <= #[trigger] self.dist_num(i, tick@)
                &&& forall|i: int|
                    0 <= i < r ==> self.dist_num(r as int, tick@)
                        < #[trigger] self.dist_num(i, tick@)
            },
    {
        let n: usize = self.domain.len();
        if n == 0 {
            return 0;
        }
        proof {
            self.lemma_denom_pos();
        }
        let q: i128 = self.pad_inner.den * self.pad_outer.den;
        let pi_c: i128 = self.pad_inner.num * self.pad_outer.den;
        let po_c: i128 = self.pad_outer.num * self.pad_inner.den;
        let denom: i128 = (n as i128) * q - pi_c + 2 * po_c;
        let w: i128 = self.r1 as i128 - self.r0 as i128;
        let mut nums: Vec<i128> = Vec::new();
        let mut i: usize = 0;
        while i < n
            invariant
                self.wf(),
                n == self.domain.len(),
                1 <= n,
                i <= n,
                q == self.q(),
                pi_c == self.pi_c(),
                po_c == self.po_c(),
                denom == self.denom(),
                w == self.width(),
                0 < q <= 1_000_000,
                0 <= po_c < q,
                0 < denom <= 10_002_000_000,
                nums@.len() == i,
                forall|j: int|
                    0 <= j < i ==> #[trigger] nums@[j] == self.pos_rat(j).n
                        && -POS_BOUND <= nums@[j] <= POS_BOUND,
            decreases n - i,
        {
            proof {
                lemma_mul_bounds(
                    self.r0 as int,
                    denom as int,
                    COORD_LIMIT as int,
                    10_002_000_000,
                );
                lemma_mul_bounds(i as int, q as int, 10_000, 1_000_000);
                lemma_mul_bounds(
                    w as int,
                    po_c + (i as int) * (q as int),
                    2 * COORD_LIMIT as int,
                    10_001_000_000,
                );
            }
            let num: i128 = self.r0 as i128 * denom + w * (po_c + (i as i128) * q);
            nums.push(num);
            i += 1;
        }
        let r: usize = argmin_dist(&nums, tick.num, tick.den, denom);
        proof {
            assert forall|k: int| 0 <= k < n implies #[trigger] dist_at(
                nums@,
                tick.num as int,
                tick.den as int,
                denom as int,
                k,
            ) == self.dist_num(k, tick@) by {
                assert(nums@[k] == self.pos_rat(k).n);
                assert(self.pos_rat(k).d == denom);
            }
            assert forall|k: int| 0 <= k < n implies self.dist_num(r as int, tick@)
                <= #[trigger] self.dist_num(k, tick@) by {
                assert(dist_at(nums@, tick.num as int, tick.den as int, denom as int, r as int)
                    <= dist_at(nums@, tick.num as int, tick.den as int, denom as int, k));
            }
            assert forall|k: int| 0 <= k < r implies self.dist_num(r as int, tick@)
                < #[trigger] self.dist_num(k, tick@) by {
                assert(dist_at(nums@, tick.num as int, tick.den as int, denom as int, r as int)
                    < dist_at(nums@, tick.num as int, tick.den as int, denom as int, k));
            }
        }
        r
    }
}

/// With both paddings zero, `N` slots of one step each tile the range
/// exactly: `N * step == width`.
pub proof fn lemma_band_cover(s: ScaleBand)
    requires
        s.wf(),
        s.domain.len() >= 1,
        s.pad_inner.num == 0,
        s.pad_outer.num == 0,
    ensures
        rat_eq(
            rat_mul(rat_of_int(s.domain.len() as int), s.step_rat()),
            rat_of_int(s.width()),
        ),
{
    let n = s.domain.len() as int;
    let w = s.width();
    let q = s.q();
    s.lemma_denom_pos();
    assert(s.pi_c() == 0 && s.po_c() == 0) by (nonlinear_arith)
        requires
            s.pad_inner.num == 0,
            s.pad_outer.num == 0,
            s.pi_c() == s.pad_inner.num * s.pad_outer.den,
            s.po_c() == s.pad_outer.num * s.pad_inner.den,
    ;
    // (n * (w * q)) * 1 == w * (1 * (n * q))
    assert((n * (w * q)) * 1 == w * (1 * (n * q))) by (nonlinear_arith);
}

/// The resolved slot width equals the closed form
/// `step * (1 - padding_inner)`, where `1 - padding_inner` is the
/// rational `(q - pi) / q` over the common padding denominator `q`.
pub proof fn lemma_band_width_closed_form(s: ScaleBand)
    requires
        s.wf(),
        s.domain.len() >= 1,
    ensures
        rat_eq(
            s.band_width_rat(),
            rat_mul(s.step_rat(), Rat { n: s.q() - s.pi_c(), d: s.q() }),
        ),
{
    let w = s.width();
    let q = s.q();
    let p = s.pi_c();
    let d = s.denom();
    s.lemma_denom_pos();
    assert((w * (q - p)) * (d * q) == ((w * q) * (q - p)) * d) by (nonlinear_arith);
}

/// The full tiling identity of a band scale: the two outer gaps, the `N`
/// slots, and the `N - 1` inner gaps together cover the range exactly:
/// `2 * padding_outer * step + N * band_width + (N - 1) * padding_inner * step == width`.
pub proof fn lemma_band_partition(s: ScaleBand)
    requires
        s.wf(),
        s.domain.len() >= 1,
    ensures
        rat_eq(
            rat_add(
                rat_add(
                    rat_mul(rat_of_int(2), rat_mul(Rat { n: s.po_c(), d: s.q() }, s.step_rat())),
                    rat_mul(rat_of_int(s.domain.len() as int), s.band_width_rat()),
                ),
                rat_mul(
                    rat_of_int(s.domain.len() as int - 1),
                    rat_mul(Rat { n: s.pi_c(), d: s.q() }, s.step_rat()),
                ),
            ),
            rat_of_int(s.width()),
        ),
{
    let n = s.domain.len() as int;
    let w = s.width();
    let q = s.q();
    let pi = s.pi_c();
    let po = s.po_c();
    let d = s.denom();
    s.lemma_denom_pos();
    // The core identity: the pieces, counted in step units over the
    // common denominator q, add up to the step denominator itself.
    assert(2 * po + n * (q - pi) + (n - 1) * pi == d) by (nonlinear_arith)
        requires
            d == n * q - pi + 2 * po,
    ;
    let a = rat_mul(rat_of_int(2), rat_mul(Rat { n: po, d: q }, s.step_rat()));
    let b = rat_mul(rat_of_int(n), s.band_width_rat());
    let c = rat_mul(rat_of_int(n - 1), rat_mul(Rat { n: pi, d: q }, s.step_rat()));
    let ab = rat_add(a, b);
    let abc = rat_add(ab, c);
    let an = a.n;
    let bn = b.n;
    let cn = c.n;
    assert(a.d == q * d && b.d == d && c.d == q * d);
    // Each piece's numerator, brought onto the common denominator q * d,
    // is its step-unit count times the scaled width S = w * q * d.
    let s_w = (w * q) * d;
    assert(an * d == (2 * po) * s_w) by (nonlinear_arith)
        requires
            an == 2 * (po * (w * q)),
            s_w == (w * q) * d,
    ;
    assert(bn * (q * d) == (n * (q - pi)) * s_w) by (nonlinear_arith)
        requires
            bn == n * (w * (q - pi)),
            s_w == (w * q) * d,
    ;
    assert(cn * d == ((n - 1) * pi) * s_w) by (nonlinear_arith)
        requires
            cn == (n - 1) * (pi * (w * q)),
            s_w == (w * q) * d,
    ;
    // Summing the step-unit counts gives d, so the numerators sum to d * S.
    assert((2 * po) * s_w + (n * (q - pi)) * s_w + ((n - 1) * pi) * s_w == d * s_w)
        by (nonlinear_arith)
        requires
            2 * po + n * (q - pi) + (n - 1) * pi == d,
    ;
    let x = an * d + bn * (q * d);
    let y = q * d;
    assert(ab.n == x);
    assert(ab.d == y * d) by (nonlinear_arith)
        requires
            ab.d == (q * d) * d,
            y == q * d,
    ;
    assert(abc.n == x * y + cn * (y * d));
    assert(x * y + cn * (y * d) == (x + cn * d) * y) by (nonlinear_arith);
    assert(x + cn * d == d * s_w);
    // Both sides reduce to w * q * d * d over the denominator y.
    let z = (q * d) * d;
    assert(abc.d == z * y) by (nonlinear_arith)
        requires
            abc.d == ((q * d) * d) * (q * d),
            z == (q * d) * d,
            y == q * d,
    ;
    assert(d * s_w == w * z) by (nonlinear_arith)
        requires
            s_w == (w * q) * d,
            z == (q * d) * d,
    ;
    assert(abc.n == (w * z) * y);
    assert((w * z) * y == w * (z * y)) by (nonlinear_arith);
    assert(abc.n * 1 == w * abc.d);
}

/// A categorical scale that places its categories at evenly spaced single
/// coordinates spanning the pixel range, with no slot width.
#[derive(Clone, Debug)]
pub struct ScalePoint {
    pub domain: Vec<i64>,
    pub r0: i64,
    pub r1: i64,
}

impl ScalePoint {
    pub open spec fn wf(self) -> bool {
        &&& self.domain.len() <= DOMAIN_LIMIT
        &&& in_coord_range(self.r0 as int)
        &&& in_coord_range(self.r1 as int)
    }

    /// Position of the `i`-th category:
    /// `r0 + i * (r1 - r0) / (N - 1)`, or `r0` alone when `N <= 1`.
    pub open spec fn pos_rat(self, i: int) -> Rat {
        let nn = self.domain.len() as int;
        if nn <= 1 {
            rat_of_int(self.r0 as int)
        } else {
            Rat { n: self.r0 * (nn - 1) + i * (self.r1 - self.r0), d: nn - 1 }
        }
    }

    /// Build a point scale over the given categories and a two-element
    /// pixel range.
    pub fn new(domain: Vec<i64>, range: Vec<i64>) -> (r: ScalePoint)
        requires
            domain.len() <= DOMAIN_LIMIT,
            range.len() == 2,
            in_coord_range(range[0] as int),
            in_coord_range(range[1] as int),
        ensures
            r.domain@ == domain@,
            r.r0 == range[0],
            r.r1 == range[1],
            r.wf(),
    {
        let r0: i64 = range[0];
        let r1: i64 = range[1];
        ScalePoint { domain, r0, r1 }
    }

    /// Map a category to its coordinate. The result is present exactly
    /// when the category occurs in the domain; the first matching index
    /// decides the position.
    pub fn tick(&self, value: &i64) -> (r: Option<Frac>)
        requires
            self.wf(),
        ensures
            (r is Some) == self.domain@.contains(*value),
            r matches Some(f) ==> {
                &&& f.wf()
                &&& f.bounded(TICK_BOUND as int)
                &&& f@ == self.pos_rat(self.domain@.index_of_first(*value).unwrap())
            },
    {
        let n: usize = self.domain.len();
        let mut i: usize = 0;
        while i < n
            invariant
                self.wf(),
                n == self.domain.len(),
                i <= n,
                forall|j: int| 0 <= j < i ==> self.domain@[j] != *value,
            decreases n - i,
        {
            if self.domain[i] == *value {
                proof {
                    assert(self.domain@.contains(*value)) by {
                        assert(self.domain@[i as int] == *value);
                    }
                    self.domain@.index_of_first_ensures(*value);
                    let idx = self.domain@.index_of_first(*value).unwrap();
                    if idx < i as int {
                        assert(self.domain@[idx] != *value);
                    } else if idx > i as int {
                        assert(self.domain@[i as int] != *value);
                    }
                    assert(idx == i as int);
                }
                if n <= 1 {
                    return Some(Frac::from_int(self.r0));
                }
                let dd: i128 = n as i128 - 1;
                proof {
                    lemma_mul_bounds(self.r0 as int, dd as int, COORD_LIMIT as int, 10_000);
                    lemma_mul_bounds(
                        i as int,
                        self.r1 - self.r0,
                        10_000,
                        2 * COORD_LIMIT as int,
                    );
                }
                let num: i128 = self.r0 as i128 * dd + (i as i128) * (self.r1 as i128
                    - self.r0 as i128);
                return Some(Frac::new(num, dd));
            }
            i += 1;
        }
        proof {
            self.domain@.index_of_first_ensures(*value);
        }
        None
    }
}

impl ScalePoint {
    /// Distance between position `i` and the coordinate `t`, as a
    /// numerator over the positive common denominator.
    pub open spec fn dist_num(self, i: int, t: Rat) -> int {
        abs_int(self.pos_rat(i).n * t.d - t.n * self.pos_rat(i).d)
    }

    /// Inverse lookup: the first category index whose position is nearest
    /// to the given coordinate. An empty domain yields 0.
    pub fn least_index(&self, tick: Frac) -> (r: usize)
        requires
            self.wf(),
            tick.wf(),
            tick.den <= 1_000_000,
            -1_000_000_000_000_000_000 <= tick.num <= 1_000_000_000_000_000_000,
        ensures
            self.domain.len() == 0 ==> r == 0,
            self.domain.len() >= 1 ==> {
                &&& r < self.domain.len()
                &&& forall|i: int|
                    0 <= i < self.domain.len() ==> self.dist_num(r as int, tick@)
                        <= #[trigger] self.dist_num(i, tick@)
                &&& forall|i: int|
                    0 <= i < r ==> self.dist_num(r as int, tick@)
                        < #[trigger] self.dist_num(i, tick@)
            },
    {
        let n: usize = self.domain.len();
        if n == 0 {
            return 0;
        }
        let dd: i128 = if n <= 1 {
            1
        } else {
            n as i128 - 1
        };
        let w: i128 = self.r1 as i128 - self.r0 as i128;
        let mut nums: Vec<i128> = Vec::new();
        let mut i: usize = 0;
        while i < n
            invariant
                self.wf(),
                n == self.domain.len(),
                1 <= n,
                i <= n,
                w == self.r1 - self.r0,
                n <= 1 ==> dd == 1,
                n > 1 ==> dd == n - 1,
                nums@.len() == i,
                forall|j: int|
                    0 <= j < i ==> #[trigger] nums@[j] == self.pos_rat(j).n
                        && -POS_BOUND <= nums@[j] <= POS_BOUND,
            decreases n - i,
        {
            let num: i128 = if n <= 1 {
                self.r0 as i128
            } else {
                proof {
                    lemma_mul_bounds(self.r0 as int, dd as int, COORD_LIMIT as int, 10_000);
                    lemma_mul_bounds(i as int, w as int, 10_000, 2 * COORD_LIMIT as int);
                }
                self.r0 as i128 * dd + (i as i128) * w
            };
            nums.push(num);
            i += 1;
        }
        let r: usize = argmin_dist(&nums, tick.num, tick.den, dd);
        proof {
            assert forall|k: int| 0 <= k < n implies #[trigger] dist_at(
                nums@,
                tick.num as int,
                tick.den as int,
                dd as int,
                k,
            ) == self.dist_num(k, tick@) by {
                assert(nums@[k] == self.pos_rat(k).n);
                assert(self.pos_rat(k).d == dd);
            }
            assert forall|k: int| 0 <= k < n implies self.dist_num(r as int, tick@)
                <= #[trigger] self.dist_num(k, tick@) by {
                assert(dist_at(nums@, tick.num as int, tick.den as int, dd as int, r as int)
                    <= dist_at(nums@, tick.num as int, tick.den as int, dd as int, k));
            }
            assert forall|k: int| 0 <= k < r implies self.dist_num(r as int, tick@)
                < #[trigger] self.dist_num(k, tick@) by {
                assert(dist_at(nums@, tick.num as int, tick.den as int, dd as int, r as int)
                    < dist_at(nums@, tick.num as int, tick.den as int, dd as int, k));
            }
        }
        r
    }
}

/// Absolute value of an integer.
pub open spec fn abs_int(v: int) -> int {
    if v < 0 {
        -v
    } else {
        v
    }
}

/// Distance numerator between position `i` of a list of positions (all
/// numerators over one shared denominator `den`) and the coordinate
/// `tn / td`, on the common denominator `den * td`.
pub open spec fn dist_at(nums: Seq<i128>, tn: int, td: int, den: int, i: int) -> int {
    abs_int(nums[i] * td - tn * den)
}

/// Magnitude bound on the position numerators given to [`argmin_dist`].
pub const POS_BOUND: i128 = 100_000_000_000_000_000_000_000;

/// First index whose position is nearest to the coordinate `tn / td`.
/// Positions are numerators over the shared positive denominator `den`.
fn argmin_dist(nums: &Vec<i128>, tn: i128, td: i128, den: i128) -> (r: usize)
    requires
        nums.len() >= 1,
        0 < den <= 20_000_000_000,
        0 < td <= 1_000_000,
        -1_000_000_000_000_000_000 <= tn <= 1_000_000_000_000_000_000,
        forall|i: int| 0 <= i < nums.len() ==> -POS_BOUND <= #[trigger] nums@[i] <= POS_BOUND,
    ensures
        r < nums.len(),
        forall|i: int|
            0 <= i < nums.len() ==> dist_at(nums@, tn as int, td as int, den as int, r as int)
                <= #[trigger] dist_at(nums@, tn as int, td as int, den as int, i),
        forall|i: int|
            0 <= i < r ==> dist_at(nums@, tn as int, td as int, den as int, r as int)
                < #[trigger] dist_at(nums@, tn as int, td as int, den as int, i),
{
    proof {
        lemma_mul_bounds(nums@[0] as int, td as int, POS_BOUND as int, 1_000_000);
        lemma_mul_bounds(tn as int, den as int, 1_000_000_000_000_000_000, 20_000_000_000);
    }
    let t_scaled: i128 = tn * den;
    let mut best: usize = 0;
    let v0: i128 = nums[0] * td - t_scaled;
    let mut best_d: i128 = if v0 < 0 {
        -v0
    } else {
        v0
    };
    let mut i: usize = 1;
    while i < nums.len()
        invariant
            nums.len() >= 1,
            0 < den <= 20_000_000_000,
            0 < td <= 1_000_000,
            -1_000_000_000_000_000_000 <= tn <= 1_000_000_000_000_000_000,
            forall|k: int|
                0 <= k < nums.len() ==> -POS_BOUND <= #[trigger] nums@[k] <= POS_BOUND,
            t_scaled == tn * den,
            best < i <= nums.len(),
            best_d == dist_at(nums@, tn as int, td as int, den as int, best as int),
            forall|k: int|
                0 <= k < i ==> best_d <= #[trigger] dist_at(
                    nums@,
                    tn as int,
                    td as int,
                    den as int,
                    k,
                ),
            forall|k: int|
                0 <= k < best ==> best_d < #[trigger] dist_at(
                    nums@,
                    tn as int,
                    td as int,
                    den as int,
                    k,
                ),
        decreases nums.len() - i,
    {
        proof {
            lemma_mul_bounds(nums@[i as int] as int, td as int, POS_BOUND as int, 1_000_000);
            lemma_mul_bounds(
                tn as int,
                den as int,
                1_000_000_000_000_000_000,
                20_000_000_000,
            );
        }
        let v: i128 = nums[i] * td - t_scaled;
        let d: i128 = if v < 0 {
            -v
        } else {
            v
        };
        if d < best_d {
            best = i;
            best_d = d;
        }
        i += 1;
    }
    best
}

/// With an ascending domain and an ascending range, positions are
/// monotonically nondecreasing in the domain value.
pub proof fn lemma_linear_tick_monotone(s: ScaleLinear, v: int, w: int)
    requires
        s.wf(),
        v <= w,
        s.d0 < s.d1,
        s.r0 <= s.r1,
    ensures
        rat_le(s.tick_rat(v), s.tick_rat(w)),
{
    let dd = s.d1 - s.d0;
    let nv = s.r0 * dd + (v - s.d0) * (s.r1 - s.r0);
    let nw = s.r0 * dd + (w - s.d0) * (s.r1 - s.r0);
    assert((v - s.d0) * (s.r1 - s.r0) <= (w - s.d0) * (s.r1 - s.r0)) by (nonlinear_arith)
        requires
            v <= w,
            s.r1 - s.r0 >= 0,
    ;
    assert(nv * dd <= nw * dd) by (nonlinear_arith)
        requires
            nv <= nw,
            dd > 0,
    ;
}

/// With an ascending domain and a descending range, positions are
/// monotonically nonincreasing in the domain value: the map runs in the
/// direction of the domain-to-range sign.
pub proof fn lemma_linear_tick_antitone(s: ScaleLinear, v: int, w: int)
    requires
        s.wf(),
        v <= w,
        s.d0 < s.d1,
        s.r0 >= s.r1,
    ensures
        rat_le(s.tick_rat(w), s.tick_rat(v)),
{
    let dd = s.d1 - s.d0;
    let nv = s.r0 * dd + (v - s.d0) * (s.r1 - s.r0);
    let nw = s.r0 * dd + (w - s.d0) * (s.r1 - s.r0);
    assert((w - s.d0) * (s.r1 - s.r0) <= (v - s.d0) * (s.r1 - s.r0)) by (nonlinear_arith)
        requires
            v <= w,
            s.r1 - s.r0 <= 0,
    ;
    assert(nw * dd <= nv * dd) by (nonlinear_arith)
        requires
            nw <= nv,
            dd > 0,
    ;
}

} // verus!
