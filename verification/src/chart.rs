//! A ready-made pie chart: the layout and the arc renderer composed,
//! with the chart's sizing conventions.
//!
//! The chart fills the bounds: the outer radius is four tenths of the
//! bounds' height; a donut keeps a hole of eight tenths of that radius;
//! the optional pad reserves a rim gap of about four pixels between
//! adjacent sectors.

use crate::num::{div_floor, rat_eq, rat_of_int, Frac};
use crate::shape::arc::{Arc, ArcData, ArcPath};
use crate::shape::pie::{kept, kept_count, total_of, Pie, SERIES_LIMIT, VALUE_LIMIT};
use crate::{Bounds, Color, SUBPX};
use vstd::prelude::*;

verus! {

/// A pie chart: plain sectors, or a donut, with an optional angular gap
/// between adjacent sectors.
#[derive(Clone, Copy, Debug, PartialEq, Eq, Structural)]
pub struct PieChart {
    pub donut: bool,
    pub pad_angle: bool,
}

impl PieChart {
    /// A plain pie: full sectors, no gaps.
    pub fn new() -> (r: PieChart)
        ensures
            r.donut == false,
            r.pad_angle == false,
    {
        PieChart { donut: false, pad_angle: false }
    }

    /// Keep a hole in the middle: a donut chart.
    pub fn donut(self) -> (r: PieChart)
        ensures
            r == (PieChart { donut: true, ..self }),
    {
        PieChart { donut: true, ..self }
    }

    /// Reserve an angular gap between adjacent sectors.
    pub fn pad_angle(self) -> (r: PieChart)
        ensures
            r == (PieChart { pad_angle: true, ..self }),
    {
        PieChart { pad_angle: true, ..self }
    }

    /// The chart's outer radius: four tenths of the bounds' height.
    pub open spec fn radius_of(bounds: Bounds) -> int {
        (bounds.size.height * 2) as int / 5
    }

    /// The inner radius: eight tenths of the outer radius for a donut,
    /// zero for a plain pie.
    pub open spec fn inner_radius_of(self, bounds: Bounds) -> int {
        if self.donut {
            (Self::radius_of(bounds) * 4) / 5
        } else {
            0
        }
    }

    /// The arc renderer the chart paints with.
    pub open spec fn arc_cfg_of(self, bounds: Bounds) -> Arc {
        Arc {
            inner_radius: self.inner_radius_of(bounds) as i64,
            outer_radius: Self::radius_of(bounds) as i64,
        }
    }

    /// Lay out and render the chart: one entry per element with a
    /// present non-negative value, carrying its sector, its rendered
    /// contour (absent exactly when the sector is too small or too
    /// finely divided to draw), and its element's color. The sectors are
    /// contiguous exact shares of one turn, as the pie layout lays them
    /// out, and each contour has the shape the arc renderer fixes.
    pub fn paint(&self, values: &Vec<Option<i64>>, colors: &Vec<Color>, bounds: &Bounds) -> (r:
        Vec<(ArcData, Option<ArcPath>, Color)>)
        requires
            values.len() <= SERIES_LIMIT,
            colors.len() == values.len(),
            forall|i: int|
                0 <= i < values.len() ==> ((#[trigger] values@[i]) matches Some(v) ==> v
                    <= VALUE_LIMIT),
            bounds.wf(),
            bounds.size.height >= 0,
        ensures
            r.len() == kept_count(values@),
            forall|j: int|
                0 <= j < r.len() ==> {
                    let s = (#[trigger] r@[j]).0;
                    &&& 0 <= s.index < values.len()
                    &&& kept(values@[s.index as int])
                    &&& values@[s.index as int] == Some(s.value)
                    &&& r@[j].2 == colors@[s.index as int]
                    &&& (r@[j].1 is Some) == (s.wf() && !self.arc_cfg_of(*bounds).degenerate(
                        s,
                    ))
                    &&& (r@[j].1 matches Some(p) ==> self.arc_cfg_of(*bounds).rendered_ok(
                        s,
                        *bounds,
                        p,
                    ))
                },
            forall|j: int|
                0 <= j && j + 1 < r.len() ==> (#[trigger] r@[j + 1]).0.start_angle == r@[
                    j
                ].0.end_angle && r@[j + 1].0.index > r@[j].0.index,
            total_of(values@) > 0 && r.len() >= 1 ==> r@[0].0.start_angle.num == 0 && rat_eq(
                r@[r.len() - 1].0.end_angle@,
                rat_of_int(1),
            ),
    {
        let h: i64 = bounds.size.height;
        let radius: i64 = div_floor(h as i128 * 2, 5) as i64;
        let inner: i64 = if self.donut {
            div_floor(radius as i128 * 4, 5) as i64
        } else {
            0
        };
        proof {
            crate::num::lemma_div_in_range(h as int * 2, 5, h as int);
            crate::num::lemma_div_in_range(radius as int * 4, 5, radius as int);
        }
        let arc_cfg: Arc = Arc::new().inner_radius(inner).outer_radius(radius);
        let mut pie: Pie = Pie::new();
        if self.pad_angle && radius > 0 {
            let q0: i128 = div_floor(226_000_000 * SUBPX as i128, 355 * radius as i128);
            let q: i128 = if q0 > 1_000_000 {
                1_000_000
            } else {
                q0
            };
            proof {
                crate::num::lemma_div_in_range(
                    226_000_000 * SUBPX as int,
                    355 * radius as int,
                    226_000_000 * SUBPX as int,
                );
            }
            pie = pie.pad_angle(Frac::new(q, 1_000_000));
        }
        let sectors: Vec<ArcData> = pie.arcs(values);
        let ghost t_all = total_of(values@);
        let mut r: Vec<(ArcData, Option<ArcPath>, Color)> = Vec::new();
        let mut i: usize = 0;
        while i < sectors.len()
            invariant
                sectors.len() == kept_count(values@),
                colors.len() == values.len(),
                t_all == total_of(values@),
                forall|j: int|
                    0 <= j < sectors.len() ==> {
                        let s = #[trigger] sectors@[j];
                        &&& 0 <= s.index < values.len()
                        &&& kept(values@[s.index as int])
                        &&& values@[s.index as int] == Some(s.value)
                        &&& s.start_angle.wf()
                        &&& s.end_angle.wf()
                        &&& s.pad_angle.wf()
                        &&& s.end_angle.den == s.start_angle.den
                        &&& s.pad_angle.den == s.start_angle.den
                    },
                forall|j: int|
                    0 <= j && j + 1 < sectors.len() ==> (#[trigger] sectors@[j
                        + 1]).start_angle == sectors@[j].end_angle && sectors@[j + 1].index
                        > sectors@[j].index,
                t_all > 0 && sectors.len() >= 1 ==> sectors@[0].start_angle.num == 0
                    && rat_eq(sectors@[sectors.len() - 1].end_angle@, rat_of_int(1)),
                arc_cfg.wf(),
                arc_cfg == self.arc_cfg_of(*bounds),
                bounds.wf(),
                i <= sectors.len(),
                r.len() == i,
                forall|j: int| 0 <= j < i ==> (#[trigger] r@[j]).0 == sectors@[j],
                forall|j: int|
                    0 <= j < i ==> {
                        let s = (#[trigger] r@[j]).0;
                        &&& r@[j].2 == colors@[s.index as int]
                        &&& (r@[j].1 is Some) == (s.wf() && !arc_cfg.degenerate(s))
                        &&& (r@[j].1 matches Some(p) ==> arc_cfg.rendered_ok(s, *bounds, p))
                    },
            decreases sectors.len() - i,
        {
            let sector: ArcData = sectors[i];
            let path: Option<ArcPath> = if sector_angles_in_caps(&sector) {
                arc_cfg.path(&sector, bounds)
            } else {
                None
            };
            r.push((sector, path, colors[sector.index]));
            i += 1;
        }
        r
    }
}

/// Whether a sector's angles fit the arc renderer's caps; the pie layout
/// always satisfies them for series within the chart's limits, and the
/// runtime test keeps the composition total for any well-formed sector.
fn sector_angles_in_caps(sector: &ArcData) -> (r: bool)
    requires
        sector.start_angle.wf(),
        sector.end_angle.wf(),
        sector.pad_angle.wf(),
        sector.end_angle.den == sector.start_angle.den,
        sector.pad_angle.den == sector.start_angle.den,
    ensures
        r == sector.wf(),
{
    let d: i128 = sector.start_angle.den;
    if d > crate::shape::arc::ANGLE_DEN_LIMIT {
        return false;
    }
    proof {
        crate::num::lemma_mul_bounds(32, d as int, 32, 10_000_000_000_000_000_000_000);
    }
    let hi: i128 = 32 * d;
    let lo: i128 = -hi;
    proof {
        assert((-32) * (d as int) == -(32 * d as int)) by (nonlinear_arith);
    }
    lo <= sector.start_angle.num && sector.start_angle.num <= hi && lo
        <= sector.end_angle.num && sector.end_angle.num <= hi && 0 <= sector.pad_angle.num
        && sector.pad_angle.num <= d
}

} // verus!
