//! Geometry primitives: arc-length dash decomposition of a straight
//! segment, and the open polyline builder.
//!
//! A dashed segment is cut into alternating drawn and skipped intervals
//! measured by arc length along the segment, not by point count. The
//! segment's length is the integer square root of the squared chord
//! length, exact to one sub-pixel unit.

use crate::num::{div_floor, isqrt, lemma_mul_bounds};
use crate::{pt_in_paint_range, pt_in_range, Bounds, PathCmd, Point, COORD_LIMIT};
use vstd::arithmetic::div_mod::{
    lemma_fundamental_div_mod, lemma_fundamental_div_mod_converse, lemma_mod_bound,
};
use vstd::prelude::*;

verus! {

/// The smaller of two integers.
pub open spec fn min_int(a: int, b: int) -> int {
    if a < b {
        a
    } else {
        b
    }
}

/// Floor of the square root, defined by counting up.
pub open spec fn sqrt_floor(n: nat) -> nat
    decreases n,
{
    if n == 0 {
        0
    } else {
        let s = sqrt_floor((n - 1) as nat);
        if (s + 1) * (s + 1) <= n {
            s + 1
        } else {
            s
        }
    }
}

/// The defining bracket of the square root floor.
pub proof fn lemma_sqrt_floor_bracket(n: nat)
    ensures
        sqrt_floor(n) * sqrt_floor(n) <= n,
        n < (sqrt_floor(n) + 1) * (sqrt_floor(n) + 1),
    decreases n,
{
    if n == 0 {
        assert(sqrt_floor(0) == 0);
        assert(sqrt_floor(n) * sqrt_floor(n) <= n);
        assert(n < (sqrt_floor(n) + 1) * (sqrt_floor(n) + 1)) by (nonlinear_arith)
            requires
                n == 0,
                sqrt_floor(n) == 0,
        ;
    } else {
        lemma_sqrt_floor_bracket((n - 1) as nat);
        let s = sqrt_floor((n - 1) as nat);
        if (s + 1) * (s + 1) <= n {
            assert(sqrt_floor(n) == s + 1);
            assert(n - 1 < (s + 1) * (s + 1));
            assert(n < (s + 2) * (s + 2)) by (nonlinear_arith)
                requires
                    n <= (s + 1) * (s + 1),
                    s >= 0,
            ;
            assert(sqrt_floor(n) * sqrt_floor(n) <= n);
            assert(n < (sqrt_floor(n) + 1) * (sqrt_floor(n) + 1));
        } else {
            assert(sqrt_floor(n) == s);
            assert(sqrt_floor(n) * sqrt_floor(n) <= n);
            assert(n < (sqrt_floor(n) + 1) * (sqrt_floor(n) + 1));
        }
    }
}

/// Any value bracketed between two consecutive squares is the square
/// root floor.
pub proof fn lemma_sqrt_floor_unique(n: nat, r: nat)
    requires
        r * r <= n,
        n < (r + 1) * (r + 1),
    ensures
        r == sqrt_floor(n),
{
    lemma_sqrt_floor_bracket(n);
    let s = sqrt_floor(n);
    if r < s {
        assert((r + 1) * (r + 1) <= s * s) by (nonlinear_arith)
            requires
                r + 1 <= s,
                r >= 0,
        ;
    } else if s < r {
        assert((s + 1) * (s + 1) <= r * r) by (nonlinear_arith)
            requires
                s + 1 <= r,
                s >= 0,
        ;
    }
}

/// The arc length of the straight segment from `a` to `b`, on the
/// sub-pixel grid: the square root floor of the squared chord length.
pub open spec fn seg_len(a: Point, b: Point) -> int {
    sqrt_floor(((b.x - a.x) * (b.x - a.x) + (b.y - a.y) * (b.y - a.y)) as nat) as int
}

/// Drawn interval `i` of a dash pattern `[d, g]` over a segment of
/// length `len`: it starts at arc length `i * (d + g)` and runs for `d`,
/// clipped at the segment's end.
pub open spec fn dash_interval(d: int, g: int, len: int, i: int) -> (int, int) {
    (i * (d + g), min_int(len, i * (d + g) + d))
}

/// Total drawn arc length of the first `k` intervals.
pub open spec fn drawn_upto(d: int, g: int, len: int, k: int) -> int
    decreases k,
{
    if k <= 0 {
        0
    } else {
        let iv = dash_interval(d, g, len, k - 1);
        drawn_upto(d, g, len, k - 1) + (iv.1 - iv.0)
    }
}

/// Number of pattern repetitions over a segment of length `len`:
/// the length divided by the pattern length, rounded up.
pub open spec fn pattern_count(d: int, g: int, len: int) -> int {
    (len + (d + g) - 1) / (d + g)
}

proof fn lemma_pattern_count_split(d: int, g: int, len: int)
    requires
        d >= 0,
        g >= 0,
        d + g >= 1,
        len >= 0,
    ensures
        pattern_count(d, g, len) == len / (d + g) + (if len % (d + g) > 0 {
            1int
        } else {
            0int
        }),
{
    let p = d + g;
    let q = len / p;
    let r = len % p;
    lemma_fundamental_div_mod(len, p);
    lemma_mod_bound(len, p);
    assert(p * q == q * p) by (nonlinear_arith);
    assert(p * (q + 1) == (q + 1) * p) by (nonlinear_arith);
    assert(p * (q + 1) == p * q + p) by (nonlinear_arith);
    if r == 0 {
        assert(len + p - 1 == q * p + (p - 1));
        lemma_fundamental_div_mod_converse(len + p - 1, p, q, p - 1);
    } else {
        assert(len + p - 1 == (q + 1) * p + (r - 1));
        lemma_fundamental_div_mod_converse(len + p - 1, p, q + 1, r - 1);
    }
}

/// The total drawn length of a fully decomposed dashed segment: one full
/// dash length for every complete pattern, plus what is left of the last
/// partial pattern, clipped to one dash length.
pub proof fn lemma_dash_total(d: int, g: int, len: int)
    requires
        0 <= d,
        0 <= g,
        d + g >= 1,
        0 <= len,
    ensures
        drawn_upto(d, g, len, pattern_count(d, g, len)) == (len / (d + g)) * d + (if len % (d
            + g) > 0 {
            min_int(len % (d + g), d)
        } else {
            0int
        }),
{
    lemma_pattern_count_split(d, g, len);
    lemma_drawn_upto(d, g, len, pattern_count(d, g, len));
}

/// Induction workhorse for [`lemma_dash_total`]: the running total after
/// `k` intervals.
proof fn lemma_drawn_upto(d: int, g: int, len: int, k: int)
    requires
        0 <= d,
        0 <= g,
        d + g >= 1,
        0 <= len,
        0 <= k <= len / (d + g) + (if len % (d + g) > 0 {
            1int
        } else {
            0int
        }),
    ensures
        k <= len / (d + g) ==> drawn_upto(d, g, len, k) == k * d,
        k > len / (d + g) ==> drawn_upto(d, g, len, k) == (len / (d + g)) * d + min_int(
            len % (d + g),
            d,
        ),
    decreases k,
{
    let p = d + g;
    let q = len / p;
    let r = len % p;
    lemma_fundamental_div_mod(len, p);
    lemma_mod_bound(len, p);
    if k == 0 {
        assert(k * d == 0) by (nonlinear_arith)
            requires
                k == 0,
        ;
    } else {
        lemma_drawn_upto(d, g, len, k - 1);
        let i = k - 1;
        let iv = dash_interval(d, g, len, i);
        if i < q {
            // A complete pattern: the clip at the segment end is inert.
            assert((i + 1) * p <= q * p) by (nonlinear_arith)
                requires
                    i + 1 <= q,
                    p >= 1,
            ;
            assert(q * p == p * q) by (nonlinear_arith);
            assert((i + 1) * p == i * p + p) by (nonlinear_arith);
            assert(i * p + d <= len);
            assert(iv.1 - iv.0 == d);
            assert(drawn_upto(d, g, len, k) == (k - 1) * d + d);
            assert((k - 1) * d + d == k * d) by (nonlinear_arith);
        } else {
            // The last, partial pattern: it starts where the complete
            // ones end and is clipped by the segment end.
            assert(i == q && r > 0);
            assert(i * p == p * q) by (nonlinear_arith)
                requires
                    i == q,
            ;
            assert(iv.0 == len - r);
            assert(iv.1 - iv.0 == min_int(r, d));
        }
    }
}

/// Decompose a length into the drawn intervals of the dash pattern
/// `[dash, gap]`: interval `i` starts at `i * (dash + gap)` and runs for
/// `dash`, clipped at the end. Exactly `ceil(len / (dash + gap))`
/// intervals are produced.
pub fn dash_intervals(len: i64, dash: i64, gap: i64) -> (r: Vec<(i64, i64)>)
    requires
        0 <= len <= 8 * COORD_LIMIT,
        0 <= dash <= COORD_LIMIT,
        0 <= gap <= COORD_LIMIT,
        dash + gap >= 1,
    ensures
        r.len() == pattern_count(dash as int, gap as int, len as int),
        forall|k: int|
            0 <= k < r.len() ==> {
                let iv = dash_interval(dash as int, gap as int, len as int, k);
                &&& (#[trigger] r@[k]).0 == iv.0
                &&& r@[k].1 == iv.1
                &&& 0 <= r@[k].0 < len
                &&& r@[k].0 <= r@[k].1 <= len
            },
{
    let p: i64 = dash + gap;
    let mut r: Vec<(i64, i64)> = Vec::new();
    let mut s: i64 = 0;
    let ghost mut i: int = 0;
    while s < len
        invariant
            0 <= len <= 8 * COORD_LIMIT,
            0 <= dash <= COORD_LIMIT,
            0 <= gap <= COORD_LIMIT,
            p == dash + gap,
            1 <= p,
            0 <= i,
            s == i * p,
            i == r.len(),
            i * p <= len + p,
            i > 0 ==> (i - 1) * p < len,
            forall|k: int|
                0 <= k < i ==> {
                    let iv = dash_interval(dash as int, gap as int, len as int, k);
                    &&& (#[trigger] r@[k]).0 == iv.0
                    &&& r@[k].1 == iv.1
                    &&& 0 <= r@[k].0 < len
                    &&& r@[k].0 <= r@[k].1 <= len
                },
        decreases len + p - s,
    {
        let e: i64 = if s <= len - dash {
            s + dash
        } else {
            len
        };
        r.push((s, e));
        proof {
            assert((i + 1) * p == i * p + p) by (nonlinear_arith);
            i = i + 1;
        }
        s = s + p;
    }
    proof {
        if i == 0 {
            assert(len == 0);
            assert(0int * (p as int) == 0) by (nonlinear_arith);
            assert(len as int + p - 1 == 0int * (p as int) + (p - 1));
            lemma_fundamental_div_mod_converse(
                len as int + p as int - 1,
                p as int,
                0,
                p as int - 1,
            );
        } else {
            assert((i - 1) * p == i * p - p) by (nonlinear_arith);
            assert(len as int + p - 1 == i * (p as int) + (len + p - 1 - i * p));
            lemma_fundamental_div_mod_converse(
                len as int + p as int - 1,
                p as int,
                i,
                len as int + p as int - 1 - i * (p as int),
            );
        }
    }
    r
}

/// What a full dash decomposition of the segment from `start` to `end`
/// holds: one drawn sub-segment per pattern repetition, each interval
/// mapped back onto the segment and rounded down to the sub-pixel grid.
pub open spec fn dash_segs_ok(
    start: Point,
    end: Point,
    d: int,
    g: int,
    segs: Seq<(Point, Point)>,
) -> bool {
    let l = seg_len(start, end);
    let dx = end.x - start.x;
    let dy = end.y - start.y;
    &&& segs.len() == pattern_count(d, g, l)
    &&& forall|k: int|
        0 <= k < segs.len() ==> #[trigger] segs[k] == {
            let iv = dash_interval(d, g, l, k);
            (
                Point {
                    x: (start.x + (iv.0 * dx) / l) as i64,
                    y: (start.y + (iv.0 * dy) / l) as i64,
                },
                Point {
                    x: (start.x + (iv.1 * dx) / l) as i64,
                    y: (start.y + (iv.1 * dy) / l) as i64,
                },
            )
        }
}

/// Decompose the straight segment from `start` to `end` into the drawn
/// sub-segments of the dash pattern `[dash, gap]`, measured by arc
/// length. Each drawn interval is mapped back onto the segment, rounded
/// down to the sub-pixel grid. `None` exactly when there is nothing to
/// draw: a zero-length segment, or a zero dash length.
pub fn dash_line(start: Point, end: Point, dash: i64, gap: i64) -> (r: Option<
    Vec<(Point, Point)>,
>)
    requires
        pt_in_paint_range(start),
        pt_in_paint_range(end),
        0 <= dash <= COORD_LIMIT,
        0 <= gap <= COORD_LIMIT,
    ensures
        (r is None) <==> (seg_len(start, end) == 0 || dash == 0),
        r matches Some(segs) ==> dash_segs_ok(start, end, dash as int, gap as int, segs@),
{
    let dx: i128 = end.x as i128 - start.x as i128;
    let dy: i128 = end.y as i128 - start.y as i128;
    proof {
        lemma_mul_bounds(dx as int, dx as int, 4 * COORD_LIMIT as int, 4 * COORD_LIMIT as int);
        lemma_mul_bounds(dy as int, dy as int, 4 * COORD_LIMIT as int, 4 * COORD_LIMIT as int);
        assert(dx * dx >= 0 && dy * dy >= 0) by (nonlinear_arith);
    }
    let sq: i128 = dx * dx + dy * dy;
    let len_u: u128 = isqrt(sq as u128);
    proof {
        assert(sq as u128 == sq as int);
        lemma_sqrt_floor_unique(sq as nat, len_u as nat);
        if len_u > 8 * COORD_LIMIT as u128 {
            assert(len_u * len_u > (8 * COORD_LIMIT as u128) * (8 * COORD_LIMIT as u128))
                by (nonlinear_arith)
                requires
                    len_u > 8 * COORD_LIMIT as u128,
            ;
            assert((8 * COORD_LIMIT as u128) * (8 * COORD_LIMIT as u128) == (8 * COORD_LIMIT
                as int) * (8 * COORD_LIMIT as int)) by (nonlinear_arith);
            assert(false);
        }
    }
    let len: i64 = len_u as i64;
    if len == 0 || dash == 0 {
        return None;
    }
    let ivs: Vec<(i64, i64)> = dash_intervals(len, dash, gap);
    let mut segs: Vec<(Point, Point)> = Vec::new();
    let mut k: usize = 0;
    while k < ivs.len()
        invariant
            pt_in_paint_range(start),
            pt_in_paint_range(end),
            dx == end.x - start.x,
            dy == end.y - start.y,
            1 <= len <= 8 * COORD_LIMIT,
            len == seg_len(start, end),
            0 < dash <= COORD_LIMIT,
            0 <= gap <= COORD_LIMIT,
            k <= ivs.len(),
            ivs.len() == pattern_count(dash as int, gap as int, len as int),
            forall|j: int|
                0 <= j < ivs.len() ==> {
                    let iv = dash_interval(dash as int, gap as int, len as int, j);
                    &&& (#[trigger] ivs@[j]).0 == iv.0
                    &&& ivs@[j].1 == iv.1
                    &&& 0 <= ivs@[j].0 < len
                    &&& ivs@[j].0 <= ivs@[j].1 <= len
                },
            segs.len() == k,
            forall|j: int|
                0 <= j < k ==> #[trigger] segs@[j] == {
                    let iv = dash_interval(dash as int, gap as int, len as int, j);
                    (
                        Point {
                            x: (start.x + (iv.0 * (end.x - start.x)) / (len as int)) as i64,
                            y: (start.y + (iv.0 * (end.y - start.y)) / (len as int)) as i64,
                        },
                        Point {
                            x: (start.x + (iv.1 * (end.x - start.x)) / (len as int)) as i64,
                            y: (start.y + (iv.1 * (end.y - start.y)) / (len as int)) as i64,
                        },
                    )
                },
        decreases ivs.len() - k,
    {
        let (s0, s1) = ivs[k];
        proof {
            lemma_mul_bounds(s0 as int, dx as int, 8 * COORD_LIMIT as int,
                4 * COORD_LIMIT as int);
            lemma_mul_bounds(s0 as int, dy as int, 8 * COORD_LIMIT as int,
                4 * COORD_LIMIT as int);
            lemma_mul_bounds(s1 as int, dx as int, 8 * COORD_LIMIT as int,
                4 * COORD_LIMIT as int);
            lemma_mul_bounds(s1 as int, dy as int, 8 * COORD_LIMIT as int,
                4 * COORD_LIMIT as int);
            assert forall|sv: int, dv: int|
                0 <= sv <= len && -4 * COORD_LIMIT <= dv <= 4 * COORD_LIMIT implies -((
            len as int) * (4 * COORD_LIMIT as int)) <= #[trigger] (sv * dv) <= (len as int) * (
            4 * COORD_LIMIT as int) by {
                assert(-((len as int) * (4 * COORD_LIMIT as int)) <= sv * dv <= (len as int)
                    * (4 * COORD_LIMIT as int)) by (nonlinear_arith)
                    requires
                        0 <= sv <= len as int,
                        -4 * COORD_LIMIT as int <= dv <= 4 * COORD_LIMIT as int,
                ;
            }
            crate::num::lemma_div_in_range(s0 as int * dx as int, len as int,
                4 * COORD_LIMIT as int);
            crate::num::lemma_div_in_range(s0 as int * dy as int, len as int,
                4 * COORD_LIMIT as int);
            crate::num::lemma_div_in_range(s1 as int * dx as int, len as int,
                4 * COORD_LIMIT as int);
            crate::num::lemma_div_in_range(s1 as int * dy as int, len as int,
                4 * COORD_LIMIT as int);
        }
        let p0 = Point {
            x: start.x + div_floor(s0 as i128 * dx, len as i128) as i64,
            y: start.y + div_floor(s0 as i128 * dy, len as i128) as i64,
        };
        let p1 = Point {
            x: start.x + div_floor(s1 as i128 * dx, len as i128) as i64,
            y: start.y + div_floor(s1 as i128 * dy, len as i128) as i64,
        };
        segs.push((p0, p1));
        k += 1;
    }
    Some(segs)
}

/// Build one open (non-closed) polyline through the given points after
/// translation by the bounds' origin: a move to the first point, then a
/// straight segment to each following point. `None` exactly when there
/// are no points.
pub fn polygon(points: &Vec<Point>, bounds: &Bounds) -> (r: Option<Vec<PathCmd>>)
    requires
        forall|i: int| 0 <= i < points.len() ==> pt_in_range(#[trigger] points@[i]),
        bounds.wf(),
    ensures
        (r is None) <==> points.len() == 0,
        r matches Some(cmds) ==> {
            &&& cmds.len() == points.len()
            &&& cmds@[0] == PathCmd::MoveTo(
                Point {
                    x: (points@[0].x + bounds.origin.x) as i64,
                    y: (points@[0].y + bounds.origin.y) as i64,
                },
            )
            &&& forall|i: int|
                1 <= i < points.len() ==> #[trigger] cmds@[i] == PathCmd::LineTo(
                    Point {
                        x: (points@[i].x + bounds.origin.x) as i64,
                        y: (points@[i].y + bounds.origin.y) as i64,
                    },
                )
        },
{
    let n: usize = points.len();
    if n == 0 {
        return None;
    }
    let ox: i64 = bounds.origin.x;
    let oy: i64 = bounds.origin.y;
    let mut cmds: Vec<PathCmd> = Vec::new();
    let first = points[0];
    cmds.push(PathCmd::MoveTo(Point { x: first.x + ox, y: first.y + oy }));
    let mut i: usize = 1;
    while i < n
        invariant
            n == points.len(),
            1 <= i <= n,
            ox == bounds.origin.x,
            oy == bounds.origin.y,
            bounds.wf(),
            forall|j: int| 0 <= j < n ==> pt_in_range(#[trigger] points@[j]),
            cmds.len() == i,
            cmds@[0] == PathCmd::MoveTo(
                Point {
                    x: (points@[0].x + bounds.origin.x) as i64,
                    y: (points@[0].y + bounds.origin.y) as i64,
                },
            ),
            forall|j: int|
                1 <= j < i ==> #[trigger] cmds@[j] == PathCmd::LineTo(
                    Point {
                        x: (points@[j].x + bounds.origin.x) as i64,
                        y: (points@[j].y + bounds.origin.y) as i64,
                    },
                ),
        decreases n - i,
    {
        let p = points[i];
        cmds.push(PathCmd::LineTo(Point { x: p.x + ox, y: p.y + oy }));
        i += 1;
    }
    Some(cmds)
}

} // verus!
