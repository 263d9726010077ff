//! Pie layout: converts a weighted data series into angular sectors.
//!
//! Angles are measured in turns: one turn is a full circle, so a sector's
//! span is exactly its value's share of the whole. Sectors are laid out
//! contiguously starting at angle zero, in series order. Elements with no
//! value, or a negative one, are skipped and reserve no space.

use crate::num::{rat_eq, rat_of_int, Frac};
use crate::shape::arc::ArcData;
use vstd::prelude::*;

verus! {

/// Largest number of elements a pie layout accepts.
pub const SERIES_LIMIT: usize = 10_000;

/// Largest value of one element.
pub const VALUE_LIMIT: i64 = 1_000_000_000_000;

/// An element takes part in the layout when its value is present and
/// non-negative.
pub open spec fn kept(o: Option<i64>) -> bool {
    o matches Some(v) && v >= 0
}

/// The value an element contributes to the total.
pub open spec fn kval(o: Option<i64>) -> int {
    if kept(o) {
        o.unwrap() as int
    } else {
        0
    }
}

/// Sum of the contributed values of a series.
pub open spec fn total_of(vals: Seq<Option<i64>>) -> int
    decreases vals.len(),
{
    if vals.len() == 0 {
        0
    } else {
        total_of(vals.drop_last()) + kval(vals.last())
    }
}

/// Number of elements that take part in the layout.
pub open spec fn kept_count(vals: Seq<Option<i64>>) -> int
    decreases vals.len(),
{
    if vals.len() == 0 {
        0
    } else {
        kept_count(vals.drop_last()) + (if kept(vals.last()) {
            1int
        } else {
            0int
        })
    }
}

proof fn lemma_prefix_step(vals: Seq<Option<i64>>, i: int)
    requires
        0 <= i < vals.len(),
    ensures
        total_of(vals.take(i + 1)) == total_of(vals.take(i)) + kval(vals[i]),
        kept_count(vals.take(i + 1)) == kept_count(vals.take(i)) + (if kept(vals[i]) {
            1int
        } else {
            0int
        }),
{
    assert(vals.take(i + 1).drop_last() =~= vals.take(i));
    assert(vals.take(i + 1).last() == vals[i]);
}

/// The total never drops as the prefix grows, so every contributed value
/// is at most the series total.
proof fn lemma_prefix_le_total(vals: Seq<Option<i64>>, i: int)
    requires
        0 <= i <= vals.len(),
    ensures
        total_of(vals.take(i)) <= total_of(vals),
    decreases vals.len() - i,
{
    if i < vals.len() {
        lemma_prefix_step(vals, i);
        lemma_prefix_le_total(vals, i + 1);
    } else {
        assert(vals.take(i) =~= vals);
    }
}

/// A pie layout: the only configuration is the angular gap reserved
/// between adjacent sectors, in turns.
#[derive(Clone, Copy, Debug, PartialEq, Eq, Structural)]
pub struct Pie {
    pub pad_angle: Frac,
}

impl Pie {
    /// A pad angle: a rational number of turns in `[0, 1]`, resolved in
    /// at most millionths of a turn.
    pub open spec fn pad_wf(p: Frac) -> bool {
        0 <= p.num <= p.den && 0 < p.den <= 1_000_000
    }

    pub open spec fn wf(self) -> bool {
        Self::pad_wf(self.pad_angle)
    }

    /// A new layout with no padding.
    pub fn new() -> (r: Pie)
        ensures
            r.pad_angle.num == 0,
            r.pad_angle.den == 1,
            r.wf(),
    {
        Pie { pad_angle: Frac::new(0, 1) }
    }

    /// Set the angular gap reserved between adjacent sectors.
    pub fn pad_angle(self, pad: Frac) -> (r: Pie)
        requires
            Self::pad_wf(pad),
        ensures
            r.pad_angle == pad,
            r.wf(),
    {
        Pie { pad_angle: pad }
    }

    /// Lay the series out into contiguous sectors.
    ///
    /// Writing `T` for the sum of the contributed values and `pd` for the
    /// pad denominator, every sector's angles are exact fractions of one
    /// turn over the shared denominator `T * pd`; the first starts at
    /// zero, each starts where the one before it ends, the last ends at
    /// exactly one full turn, and each span is exactly `value / T` of a
    /// turn. Elements that are skipped contribute neither a sector nor
    /// any angular space. When the total is zero every sector is empty
    /// (all angles zero).
    pub fn arcs(&self, values: &Vec<Option<i64>>) -> (r: Vec<ArcData>)
        requires
            self.wf(),
            values.len() <= SERIES_LIMIT,
            forall|i: int|
                0 <= i < values.len() ==> ((#[trigger] values@[i]) matches Some(v) ==> v
                    <= VALUE_LIMIT),
        ensures
            r.len() == kept_count(values@),
            forall|j: int|
                0 <= j < r.len() ==> {
                    let s = #[trigger] r@[j];
                    &&& 0 <= s.index < values.len()
                    &&& kept(values@[s.index as int])
                    &&& values@[s.index as int] == Some(s.value)
                    &&& s.start_angle.wf()
                    &&& s.end_angle.wf()
                    &&& s.pad_angle.wf()
                    &&& s.end_angle.den == s.start_angle.den
                    &&& s.pad_angle.den == s.start_angle.den
                },
            forall|j: int|
                0 <= j && j + 1 < r.len() ==> (#[trigger] r@[j + 1]).start_angle == r@[
                    j
                ].end_angle && r@[j + 1].index > r@[j].index,
            total_of(values@) > 0 ==> {
                &&& forall|j: int|
                    0 <= j < r.len() ==> {
                        let s = #[trigger] r@[j];
                        // span == value / total, as a fraction of one turn
                        &&& s.end_angle.num - s.start_angle.num == s.value
                            * self.pad_angle.den
                        &&& s.start_angle.den == total_of(values@) * self.pad_angle.den
                        // the carried pad angle equals the configured one
                        &&& rat_eq(s.pad_angle@, self.pad_angle@)
                    }
                &&& r.len() >= 1 ==> r@[0].start_angle.num == 0
                &&& r.len() >= 1 ==> rat_eq(r@[r.len() - 1].end_angle@, rat_of_int(1))
            },
            total_of(values@) == 0 ==> forall|j: int|
                0 <= j < r.len() ==> (#[trigger] r@[j]).start_angle.num == 0
                    && r@[j].end_angle.num == 0,
    {
        let n: usize = values.len();
        // First pass: the total of the contributed values.
        let mut total: i128 = 0;
        let mut i: usize = 0;
        while i < n
            invariant
                n == values.len(),
                i <= n,
                n <= SERIES_LIMIT,
                forall|k: int|
                    0 <= k < n ==> ((#[trigger] values@[k]) matches Some(v) ==> v
                        <= VALUE_LIMIT),
                total == total_of(values@.take(i as int)),
                0 <= total <= (i as int) * (VALUE_LIMIT as int),
            decreases n - i,
        {
            proof {
                lemma_prefix_step(values@, i as int);
                crate::num::lemma_mul_bounds(
                    i as int,
                    VALUE_LIMIT as int,
                    10_000,
                    VALUE_LIMIT as int,
                );
                crate::num::lemma_mul_bounds(
                    i as int + 1,
                    VALUE_LIMIT as int,
                    10_000,
                    VALUE_LIMIT as int,
                );
            }
            match values[i] {
                Some(v) => {
                    if v >= 0 {
                        total = total + v as i128;
                    }
                },
                None => {},
            }
            i += 1;
        }
        proof {
            assert(values@.take(n as int) =~= values@);
        }
        let ghost t_all = total_of(values@);
        let pd: i128 = self.pad_angle.den;
        // Second pass: one sector per contributed element.
        let mut r: Vec<ArcData> = Vec::new();
        let mut cum: i128 = 0;
        let mut i: usize = 0;
        while i < n
            invariant
                n == values.len(),
                i <= n,
                n <= SERIES_LIMIT,
                self.wf(),
                pd == self.pad_angle.den,
                total == t_all,
                t_all == total_of(values@),
                0 <= total <= 10_000 * (VALUE_LIMIT as int),
                forall|k: int|
                    0 <= k < n ==> ((#[trigger] values@[k]) matches Some(v) ==> v
                        <= VALUE_LIMIT),
                cum == total_of(values@.take(i as int)),
                0 <= cum <= total,
                r.len() == kept_count(values@.take(i as int)),
                forall|j: int|
                    0 <= j < r.len() ==> {
                        let s = #[trigger] r@[j];
                        &&& 0 <= s.index < i
                        &&& kept(values@[s.index as int])
                        &&& values@[s.index as int] == Some(s.value)
                        &&& s.start_angle.wf()
                        &&& s.end_angle.wf()
                        &&& s.pad_angle.wf()
                        &&& s.end_angle.den == s.start_angle.den
                        &&& s.pad_angle.den == s.start_angle.den
                    },
                forall|j: int|
                    0 <= j && j + 1 < r.len() ==> (#[trigger] r@[j + 1]).start_angle == r@[
                        j
                    ].end_angle && r@[j + 1].index > r@[j].index,
                t_all > 0 ==> forall|j: int|
                    0 <= j < r.len() ==> {
                        let s = #[trigger] r@[j];
                        &&& s.end_angle.num - s.start_angle.num == s.value
                            * self.pad_angle.den
                        &&& s.start_angle.den == t_all * self.pad_angle.den
                        &&& rat_eq(s.pad_angle@, self.pad_angle@)
                    },
                t_all > 0 && r.len() >= 1 ==> r@[0].start_angle.num == 0,
                t_all > 0 && r.len() >= 1 ==> r@[r.len() - 1].end_angle.num == cum * pd,
                t_all > 0 && r.len() == 0 ==> cum == 0,
                t_all == 0 ==> forall|j: int|
                    0 <= j < r.len() ==> (#[trigger] r@[j]).start_angle == (Frac {
                        num: 0,
                        den: 1,
                    }) && r@[j].end_angle == (Frac { num: 0, den: 1 }),
            decreases n - i,
        {
            proof {
                lemma_prefix_step(values@, i as int);
                lemma_prefix_le_total(values@, i as int + 1);
            }
            match values[i] {
                Some(v) => {
                    if v >= 0 {
                        let sector: ArcData = if total > 0 {
                            proof {
                                crate::num::lemma_mul_bounds(
                                    total as int,
                                    pd as int,
                                    10_000_000_000_000_000,
                                    1_000_000,
                                );
                                crate::num::lemma_mul_bounds(
                                    cum as int,
                                    pd as int,
                                    10_000_000_000_000_000,
                                    1_000_000,
                                );
                                crate::num::lemma_mul_bounds(
                                    cum as int + v as int,
                                    pd as int,
                                    10_000_000_000_000_000,
                                    1_000_000,
                                );
                                crate::num::lemma_mul_bounds(
                                    self.pad_angle.num as int,
                                    total as int,
                                    1_000_000,
                                    10_000_000_000_000_000,
                                );
                                assert(total as int * pd as int > 0) by (nonlinear_arith)
                                    requires
                                        total as int > 0,
                                        pd as int > 0,
                                ;
                            }
                            let den: i128 = total * pd;
                            ArcData {
                                index: i,
                                value: v,
                                start_angle: Frac::new(cum * pd, den),
                                end_angle: Frac::new((cum + v as i128) * pd, den),
                                pad_angle: Frac::new(self.pad_angle.num * total, den),
                            }
                        } else {
                            ArcData {
                                index: i,
                                value: v,
                                start_angle: Frac::new(0, 1),
                                end_angle: Frac::new(0, 1),
                                pad_angle: Frac::new(0, 1),
                            }
                        };
                        proof {
                            if total > 0 {
                                let p = self.pad_angle;
                                assert(sector.end_angle.num - sector.start_angle.num == v
                                    * p.den) by (nonlinear_arith)
                                    requires
                                        sector.end_angle.num == (cum + v) * p.den,
                                        sector.start_angle.num == cum * p.den,
                                ;
                                assert((p.num * total) * p.den == p.num * (total * p.den))
                                    by (nonlinear_arith);
                            }
                        }
                        r.push(sector);
                        cum = cum + v as i128;
                    }
                },
                None => {},
            }
            i += 1;
        }
        proof {
            assert(values@.take(n as int) =~= values@);
            if t_all > 0 && r.len() >= 1 {
                let last = r@[r.len() - 1];
                assert(last.end_angle.num == t_all * pd);
                assert((t_all * pd) * 1 == 1 * (t_all * pd)) by (nonlinear_arith);
            }
        }
        r
    }
}

} // verus!
