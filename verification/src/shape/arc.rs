//! Arc rendering: converts one pie sector into a filled donut or wedge
//! path.
//!
//! A sector's angles arrive in turns (fractions of one full circle) on a
//! shared denominator, as the pie layout emits them. The path is produced
//! symbolically: polar commands around the bounds' center, with exact
//! integer radii (sub-pixel units) and exact rational angles, already
//! rotated so that angle zero points up. A drawing caller evaluates the
//! trigonometry; nothing here needs it.
//!
//! Internally one sector's angles are brought onto the integer grid of
//! `1 / (20 * den)` turn, which makes every angular comparison and clamp
//! exact: the factor 20 absorbs the halving of pad gaps, the quarter-turn
//! rotation, and the four-fifths clamp.

use crate::num::{div_floor, lemma_mul_bounds, Frac};
use vstd::arithmetic::div_mod::{
    lemma_div_is_ordered, lemma_div_multiples_vanish, lemma_fundamental_div_mod,
    lemma_mod_bound,
};
use crate::{Bounds, Color, Point, COORD_LIMIT, SUBPX};
use vstd::prelude::*;

verus! {

/// Largest shared angle denominator the renderer accepts.
pub const ANGLE_DEN_LIMIT: i128 = 10_000_000_000_000_000_000_000;

/// Largest angle magnitude accepted, in turns.
pub const ANGLE_TURN_LIMIT: i128 = 32;

/// One angular sector of a pie layout: the source element's index and
/// value, and the sector's start, end and pad angles in turns.
#[derive(Clone, Copy, Debug, PartialEq, Eq, Structural)]
pub struct ArcData {
    pub index: usize,
    pub value: i64,
    pub start_angle: Frac,
    pub end_angle: Frac,
    pub pad_angle: Frac,
}

impl ArcData {
    /// The three angles share one positive denominator within the
    /// renderer's caps; the start and end angles lie within a few turns,
    /// and the pad angle is between zero and one turn.
    pub open spec fn wf(self) -> bool {
        &&& 0 < self.start_angle.den <= ANGLE_DEN_LIMIT
        &&& self.end_angle.den == self.start_angle.den
        &&& self.pad_angle.den == self.start_angle.den
        &&& -ANGLE_TURN_LIMIT * self.start_angle.den <= self.start_angle.num
            <= ANGLE_TURN_LIMIT * self.start_angle.den
        &&& -ANGLE_TURN_LIMIT * self.start_angle.den <= self.end_angle.num
            <= ANGLE_TURN_LIMIT * self.start_angle.den
        &&& 0 <= self.pad_angle.num <= self.start_angle.den
    }
}

/// One step of a sector path: polar coordinates around the path's
/// center. Angles are in turns, rotated so zero points up.
#[derive(Clone, Copy, Debug, PartialEq, Eq, Structural)]
pub enum ArcCmd {
    /// Move to the point at the given radius and angle.
    MoveTo { radius: i64, angle: Frac },
    /// Draw a circular arc of the given radius to the given end angle.
    ArcTo { radius: i64, angle: Frac, large_arc: bool, sweep: bool },
    /// Draw a straight segment to the point at the given radius and angle.
    LineTo { radius: i64, angle: Frac },
    /// Draw a straight segment to the center.
    LineToCenter,
    /// Close the contour.
    Close,
}

/// A sector path: one single closed fillable contour around a center.
#[derive(Clone, Debug)]
pub struct ArcPath {
    pub center: Point,
    pub cmds: Vec<ArcCmd>,
}

/// The point at the mid-radius, mid-angle of a sector, in polar form.
#[derive(Clone, Copy, Debug, PartialEq, Eq, Structural)]
pub struct CentroidPolar {
    pub radius: Frac,
    pub angle: Frac,
}

/// An arc renderer: the inner and outer radius of the ring the sectors
/// are drawn into, in sub-pixel units. A zero inner radius draws full
/// wedges to the center.
#[derive(Clone, Copy, Debug, PartialEq, Eq, Structural)]
pub struct Arc {
    pub inner_radius: i64,
    pub outer_radius: i64,
}

impl Default for Arc {
    /// Both radii start at zero.
    fn default() -> (r: Self)
        ensures
            r.inner_radius == 0,
            r.outer_radius == 0,
    {
        Arc { inner_radius: 0, outer_radius: 0 }
    }
}

impl Arc {
    pub open spec fn wf(self) -> bool {
        &&& -COORD_LIMIT <= self.inner_radius <= COORD_LIMIT
        &&& -COORD_LIMIT <= self.outer_radius <= COORD_LIMIT
    }

    pub fn new() -> (r: Self)
        ensures
            r.inner_radius == 0,
            r.outer_radius == 0,
            r.wf(),
    {
        Arc { inner_radius: 0, outer_radius: 0 }
    }

    pub fn inner_radius(self, inner_radius: i64) -> (r: Self)
        requires
            -COORD_LIMIT <= inner_radius <= COORD_LIMIT,
        ensures
            r == (Arc { inner_radius, ..self }),
    {
        Arc { inner_radius, ..self }
    }

    pub fn outer_radius(self, outer_radius: i64) -> (r: Self)
        requires
            -COORD_LIMIT <= outer_radius <= COORD_LIMIT,
        ensures
            r == (Arc { outer_radius, ..self }),
    {
        Arc { outer_radius, ..self }
    }

    /// Inner radius, floored at zero.
    pub open spec fn r0c(self) -> int {
        if self.inner_radius > 0 {
            self.inner_radius as int
        } else {
            0
        }
    }

    /// Outer radius, floored at zero.
    pub open spec fn r1c(self) -> int {
        if self.outer_radius > 0 {
            self.outer_radius as int
        } else {
            0
        }
    }

    /// The seam-fudge correction: one tenth of the larger radius, kept
    /// between three and ten pixels. Expanding the outer edge and
    /// shrinking the inner edge by this amount hides anti-aliasing seams
    /// between adjacent sectors; it is a rendering heuristic, not a
    /// geometric law.
    pub open spec fn fudge(self) -> int {
        let m = if self.r0c() > self.r1c() {
            self.r0c()
        } else {
            self.r1c()
        };
        let f = m / 10;
        if f < 3 * SUBPX {
            3 * SUBPX as int
        } else if f > 10 * SUBPX {
            10 * SUBPX as int
        } else {
            f
        }
    }

    /// Outer radius after the fudge expansion.
    pub open spec fn r1f(self) -> int {
        self.r1c() + self.fudge()
    }

    /// Inner radius after the fudge contraction, floored at zero; a zero
    /// inner radius stays zero.
    pub open spec fn r0f(self) -> int {
        if self.r0c() > 0 {
            if self.r0c() - self.fudge() > 0 {
                self.r0c() - self.fudge()
            } else {
                0
            }
        } else {
            0
        }
    }

    /// The common angular grid of a sector: units of `1 / (20 * den)`
    /// turn.
    pub open spec fn grid(arc: ArcData) -> int {
        20 * arc.start_angle.den
    }

    /// Start angle on the grid, rotated a quarter turn so zero points up.
    pub open spec fn a_start(arc: ArcData) -> int {
        arc.start_angle.num * 20 - 5 * arc.start_angle.den
    }

    /// End angle on the grid, rotated likewise.
    pub open spec fn a_end(arc: ArcData) -> int {
        arc.end_angle.num * 20 - 5 * arc.start_angle.den
    }

    /// The sector's angular span on the grid.
    pub open spec fn da(arc: ArcData) -> int {
        Self::a_end(arc) - Self::a_start(arc)
    }

    /// Pad angle on the grid; always even, so halving it is exact.
    pub open spec fn pad_units(arc: ArcData) -> int {
        arc.pad_angle.num * 20
    }

    /// Whether the pad gap is resolved separately for the two edges: only
    /// a ring segment with a positive pad needs that.
    pub open spec fn split_pad(self, arc: ArcData) -> bool {
        self.r0f() > 0 && Self::pad_units(arc) > 0
    }

    /// Angular gap at the outer edge. With a split pad it equals the pad
    /// angle itself (the pad width `r1 * pad` divided back by `r1`).
    pub open spec fn pad_outer(self, arc: ArcData) -> int {
        Self::pad_units(arc)
    }

    /// Angular gap at the inner edge: the outer pad width `r1 * pad`
    /// divided by the inner radius, clamped to four fifths of the span so
    /// a narrow ring cannot invert its sector.
    pub open spec fn pad_inner(self, arc: ArcData) -> int {
        let raw = (Self::pad_units(arc) * self.r1f()) / self.r0f();
        let max_inner = (Self::da(arc) * 4) / 5;
        if raw > max_inner {
            max_inner
        } else {
            raw
        }
    }

    /// Outer-edge start angle after padding.
    pub open spec fn a0_outer(self, arc: ArcData) -> int {
        Self::a_start(arc) + Self::pad_outer(self, arc) / 2
    }

    /// Outer-edge end angle after padding.
    pub open spec fn a1_outer(self, arc: ArcData) -> int {
        Self::a_end(arc) - Self::pad_outer(self, arc) / 2
    }

    /// Inner-edge start angle after padding.
    pub open spec fn a0_inner(self, arc: ArcData) -> int {
        if Self::split_pad(self, arc) {
            Self::a_start(arc) + Self::pad_inner(self, arc) / 2
        } else {
            Self::a0_outer(self, arc)
        }
    }

    /// Inner-edge end angle after padding.
    pub open spec fn a1_inner(self, arc: ArcData) -> int {
        if Self::split_pad(self, arc) {
            Self::a_end(arc) - Self::pad_inner(self, arc) / 2
        } else {
            Self::a1_outer(self, arc)
        }
    }

    /// The padded outer span.
    pub open spec fn da_outer(self, arc: ArcData) -> int {
        Self::a1_outer(self, arc) - Self::a0_outer(self, arc)
    }

    /// Nothing is drawn for a degenerate sector: a zero outer radius, a
    /// zero (or reversed) span, or a pad that consumes the whole span.
    pub open spec fn degenerate(self, arc: ArcData) -> bool {
        self.r1c() == 0 || Self::da(arc) <= 0 || Self::da_outer(self, arc) <= 0
    }

    /// The center of the bounds, on the sub-pixel grid.
    pub open spec fn center_of(bounds: Bounds) -> Point {
        Point {
            x: (bounds.origin.x + bounds.size.width as int / 2) as i64,
            y: (bounds.origin.y + bounds.size.height as int / 2) as i64,
        }
    }

    /// An angle on the sector's grid, as a fraction of one turn.
    pub open spec fn angle_frac(arc: ArcData, units: int) -> Frac {
        Frac { num: units as i128, den: (20 * arc.start_angle.den) as i128 }
    }

    /// The point at the mid-radius, mid-angle of the (un-fudged) sector,
    /// in polar form: radius `(inner + outer) / 2`, angle halfway from
    /// start to end, rotated so zero points up.
    pub fn centroid(&self, arc: &ArcData) -> (r: CentroidPolar)
        requires
            self.wf(),
            arc.wf(),
        ensures
            r.radius.num == self.inner_radius + self.outer_radius,
            r.radius.den == 2,
            r.angle.num == (arc.start_angle.num + arc.end_angle.num) * 10 - 5
                * arc.start_angle.den,
            r.angle.den == 20 * arc.start_angle.den,
    {
        let d: i128 = arc.start_angle.den;
        proof {
            lemma_mul_bounds(
                arc.start_angle.num as int + arc.end_angle.num as int,
                10,
                2 * ANGLE_TURN_LIMIT as int * ANGLE_DEN_LIMIT as int,
                10,
            );
        }
        let radius = Frac::new(
            self.inner_radius as i128 + self.outer_radius as i128,
            2,
        );
        let angle = Frac::new(
            (arc.start_angle.num + arc.end_angle.num) * 10 - 5 * d,
            20 * d,
        );
        CentroidPolar { radius, angle }
    }

    /// What a rendered sector path holds: the contour around the bounds'
    /// center described in [`Arc::path`]'s documentation.
    pub open spec fn rendered_ok(self, arc: ArcData, bounds: Bounds, p: ArcPath) -> bool {
        &&& p.center == Self::center_of(bounds)
        &&& self.r0f() > 0 ==> p.cmds@ =~= seq![
            ArcCmd::MoveTo {
                radius: self.r1f() as i64,
                angle: Self::angle_frac(arc, self.a0_outer(arc)),
            },
            ArcCmd::ArcTo {
                radius: self.r1f() as i64,
                angle: Self::angle_frac(arc, self.a1_outer(arc)),
                large_arc: self.da_outer(arc) > 10 * arc.start_angle.den,
                sweep: true,
            },
            ArcCmd::LineTo {
                radius: self.r0f() as i64,
                angle: Self::angle_frac(arc, self.a1_inner(arc)),
            },
            ArcCmd::ArcTo {
                radius: self.r0f() as i64,
                angle: Self::angle_frac(arc, self.a0_inner(arc)),
                large_arc: self.a1_inner(arc) - self.a0_inner(arc) > 10
                    * arc.start_angle.den,
                sweep: false,
            },
            ArcCmd::Close,
        ]
        &&& self.r0f() == 0 ==> p.cmds@ =~= seq![
            ArcCmd::MoveTo {
                radius: self.r1f() as i64,
                angle: Self::angle_frac(arc, self.a0_outer(arc)),
            },
            ArcCmd::ArcTo {
                radius: self.r1f() as i64,
                angle: Self::angle_frac(arc, self.a1_outer(arc)),
                large_arc: self.da_outer(arc) > 10 * arc.start_angle.den,
                sweep: true,
            },
            ArcCmd::LineToCenter,
            ArcCmd::Close,
        ]
        // Ordered geometry: with the inner radius inside the outer one,
        // the contour cannot cross itself.
        &&& self.r0c() <= self.r1c() ==> 0 <= self.r0f() < self.r1f()
        &&& self.a0_outer(arc) < self.a1_outer(arc)
        &&& self.r0f() > 0 ==> self.a0_inner(arc) <= self.a1_inner(arc)
        // The inner pad clamp is engaged: never more than four fifths of
        // the span.
        &&& self.split_pad(arc) ==> self.pad_inner(arc) <= (Self::da(arc) * 4) / 5
    }

    /// Render one sector into a single closed fillable contour, or
    /// nothing when the sector is degenerate.
    ///
    /// The contour moves to the outer-arc start, sweeps the outer arc
    /// clockwise (flagged as a large arc past half a turn), and returns
    /// along the inner edge: for a ring, a straight segment to the inner
    /// arc's end and the inner arc swept back counter-clockwise; for a
    /// full wedge, a straight segment to the center. The fudged radii
    /// keep `inner < outer`, the padded spans stay positive, and the
    /// inner pad never exceeds four fifths of the span, so the contour
    /// cannot cross itself.
    #[verifier::rlimit(100)]
    pub fn path(&self, arc: &ArcData, bounds: &Bounds) -> (r: Option<ArcPath>)
        requires
            self.wf(),
            arc.wf(),
            bounds.wf(),
        ensures
            (r is None) <==> self.degenerate(*arc),
            r matches Some(p) ==> self.rendered_ok(*arc, *bounds, p),
    {
        let d: i128 = arc.start_angle.den;
        let ghost g = 20 * d as int;
        // Angles on the shared integer grid, rotated a quarter turn.
        let a_start: i128 = arc.start_angle.num * 20 - 5 * d;
        let a_end: i128 = arc.end_angle.num * 20 - 5 * d;
        let pad_units: i128 = arc.pad_angle.num * 20;
        proof {
            lemma_mul_bounds(
                arc.start_angle.num as int,
                20,
                ANGLE_TURN_LIMIT as int * ANGLE_DEN_LIMIT as int,
                20,
            );
            lemma_mul_bounds(
                arc.end_angle.num as int,
                20,
                ANGLE_TURN_LIMIT as int * ANGLE_DEN_LIMIT as int,
                20,
            );
            lemma_mul_bounds(arc.pad_angle.num as int, 20, ANGLE_DEN_LIMIT as int, 20);
        }
        // Radii floored at zero.
        let r0c: i64 = if self.inner_radius > 0 {
            self.inner_radius
        } else {
            0
        };
        let r1c: i64 = if self.outer_radius > 0 {
            self.outer_radius
        } else {
            0
        };
        let da: i128 = a_end - a_start;
        if r1c == 0 || da <= 0 {
            return None;
        }
        // Seam fudge: a tenth of the larger radius, kept within three to
        // ten pixels.
        let m: i64 = if r0c > r1c {
            r0c
        } else {
            r1c
        };
        let f0: i64 = div_floor(m as i128, 10) as i64;
        let fudge: i64 = if f0 < 3 * SUBPX {
            3 * SUBPX
        } else if f0 > 10 * SUBPX {
            10 * SUBPX
        } else {
            f0
        };
        let r1_f: i64 = r1c + fudge;
        let r0_f: i64 = if r0c > 0 {
            if r0c - fudge > 0 {
                r0c - fudge
            } else {
                0
            }
        } else {
            0
        };
        // Pad handling: with a ring and a positive pad, the gap is
        // resolved separately for the two edges; otherwise one symmetric
        // half-gap serves both.
        let (a0_outer, a1_outer, a0_inner, a1_inner): (i128, i128, i128, i128) = if r0_f > 0
            && pad_units > 0 {
            proof {
                assert(r1_f <= 1_100_000_000_000);
                lemma_mul_bounds(
                    pad_units as int,
                    r1_f as int,
                    20 * ANGLE_DEN_LIMIT as int,
                    1_100_000_000_000,
                );
            }
            let raw: i128 = div_floor(pad_units * r1_f as i128, r0_f as i128);
            let max_inner: i128 = div_floor(da * 4, 5);
            let pad_inner: i128 = if raw > max_inner {
                max_inner
            } else {
                raw
            };
            let half_outer: i128 = div_floor(pad_units, 2);
            let half_inner: i128 = div_floor(pad_inner, 2);
            (a_start + half_outer, a_end - half_outer, a_start + half_inner, a_end
                - half_inner)
        } else {
            let half: i128 = div_floor(pad_units, 2);
            (a_start + half, a_end - half, a_start + half, a_end - half)
        };
        let da_outer: i128 = a1_outer - a0_outer;
        if da_outer <= 0 {
            return None;
        }
        proof {
            // Halving never grows a gap, and the inner pad clamp keeps
            // the inner span from inverting.
            if r0_f > 0 && pad_units > 0 {
                let pi = self.pad_inner(*arc);
                lemma_fundamental_div_mod(pi, 2);
                lemma_mod_bound(pi, 2);
                let dag = Self::da(*arc);
                lemma_div_is_ordered(dag * 4, dag * 5, 5);
                lemma_div_multiples_vanish(dag, 5);
                assert(5 * dag == dag * 5) by (nonlinear_arith);
                lemma_div_is_ordered(0, dag * 4, 5);
                let rawg = (Self::pad_units(*arc) * self.r1f()) / self.r0f();
                assert(Self::pad_units(*arc) * self.r1f() >= 0) by (nonlinear_arith)
                    requires
                        Self::pad_units(*arc) >= 0,
                        self.r1f() >= 0,
                ;
                lemma_div_is_ordered(0, Self::pad_units(*arc) * self.r1f(), self.r0f());
            } else {
                lemma_fundamental_div_mod(Self::pad_units(*arc), 2);
                lemma_mod_bound(Self::pad_units(*arc), 2);
            }
        }
        // The bounds' center.
        let cx: i64 = bounds.origin.x + div_floor(bounds.size.width as i128, 2) as i64;
        let cy: i64 = bounds.origin.y + div_floor(bounds.size.height as i128, 2) as i64;
        let gden: i128 = 20 * d;
        let mut cmds: Vec<ArcCmd> = Vec::new();
        cmds.push(
            ArcCmd::MoveTo { radius: r1_f, angle: Frac::new(a0_outer, gden) },
        );
        cmds.push(
            ArcCmd::ArcTo {
                radius: r1_f,
                angle: Frac::new(a1_outer, gden),
                large_arc: da_outer > 10 * d,
                sweep: true,
            },
        );
        if r0_f > 0 {
            cmds.push(
                ArcCmd::LineTo { radius: r0_f, angle: Frac::new(a1_inner, gden) },
            );
            cmds.push(
                ArcCmd::ArcTo {
                    radius: r0_f,
                    angle: Frac::new(a0_inner, gden),
                    large_arc: a1_inner - a0_inner > 10 * d,
                    sweep: false,
                },
            );
        } else {
            cmds.push(ArcCmd::LineToCenter);
        }
        cmds.push(ArcCmd::Close);
        Some(ArcPath { center: Point { x: cx, y: cy }, cmds })
    }

    /// Render one sector for painting: its contour paired with the fill
    /// color the caller hands to the drawing surface. Nothing comes back
    /// for a degenerate sector, which is a no-op to paint, not an error.
    pub fn paint(&self, arc: &ArcData, color: Color, bounds: &Bounds) -> (r: Option<
        (ArcPath, Color),
    >)
        requires
            self.wf(),
            arc.wf(),
            bounds.wf(),
        ensures
            (r is None) <==> self.degenerate(*arc),
            r matches Some(pc) ==> self.rendered_ok(*arc, *bounds, pc.0) && pc.1 == color,
    {
        match self.path(arc, bounds) {
            Some(p) => Some((p, color)),
            None => None,
        }
    }
}

} // verus!
