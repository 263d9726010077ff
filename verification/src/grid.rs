//! Grid: straight reference lines across the bounds, solid or dashed.
//!
//! Vertical lines span the full height at given x-offsets, horizontal
//! lines the full width at given y-offsets. A solid grid strokes each
//! line whole; a dashed grid decomposes each line through the dash
//! primitive and strokes the drawn pieces.

use crate::primitives::{dash_line, dash_segs_ok, seg_len};
use crate::{in_coord_range, pt_in_paint_range, Bounds, Color, Point, COORD_LIMIT};
use vstd::prelude::*;

verus! {

/// How grid lines are stroked: a solid color, or a dashed stroke with a
/// `(dash, gap)` pattern in sub-pixel units.
#[derive(Clone, Copy, Debug, PartialEq, Eq)]
pub enum StrokeStyle {
    Solid(Color),
    Dashed(Color, (i64, i64)),
}

impl Default for StrokeStyle {
    /// The default stroke is solid in the default color.
    fn default() -> (r: Self)
        ensures
            r == StrokeStyle::Solid(0u32),
    {
        StrokeStyle::Solid(0)
    }
}

/// One stroked line of the grid: its color and the straight pieces to
/// draw, each a start and an end point in absolute coordinates.
#[derive(Clone, Debug)]
pub struct GridLine {
    pub color: Color,
    pub segs: Vec<(Point, Point)>,
}

/// A grid: x-offsets of vertical lines, y-offsets of horizontal lines,
/// and the stroke style, offsets in sub-pixel units.
#[derive(Clone, Debug)]
pub struct Grid {
    pub x: Vec<i64>,
    pub y: Vec<i64>,
    pub stroke: StrokeStyle,
}

/// All offsets of a list are in coordinate range.
pub open spec fn offsets_in_range(v: Seq<i64>) -> bool {
    forall|i: int| 0 <= i < v.len() ==> in_coord_range(#[trigger] v[i] as int)
}

impl Grid {
    pub open spec fn wf(self) -> bool {
        &&& offsets_in_range(self.x@)
        &&& offsets_in_range(self.y@)
    }

    /// Endpoints of line `i` of the grid, counting the vertical lines
    /// first: a vertical line runs from the top to the bottom of the
    /// bounds at its x-offset, a horizontal one from the left to the
    /// right edge at its y-offset, all translated by the origin.
    pub open spec fn line_at(self, bounds: Bounds, i: int) -> (Point, Point) {
        let o = bounds.origin;
        if i < self.x@.len() {
            (
                Point { x: (self.x@[i] + o.x) as i64, y: o.y },
                Point { x: (self.x@[i] + o.x) as i64, y: (bounds.size.height + o.y) as i64 },
            )
        } else {
            let j = i - self.x@.len();
            (
                Point { x: o.x, y: (self.y@[j] + o.y) as i64 },
                Point { x: (bounds.size.width + o.x) as i64, y: (self.y@[j] + o.y) as i64 },
            )
        }
    }

    /// Number of lines the grid paints.
    pub open spec fn n_lines(self) -> int {
        self.x@.len() + self.y@.len() as int
    }

    /// A new grid: no lines, solid default stroke.
    pub fn new() -> (r: Grid)
        ensures
            r.x@.len() == 0,
            r.y@.len() == 0,
            r.stroke == StrokeStyle::Solid(0u32),
            r.wf(),
    {
        Grid { x: Vec::new(), y: Vec::new(), stroke: StrokeStyle::Solid(0) }
    }

    /// Set the x-offsets of the vertical lines.
    pub fn x(self, x: Vec<i64>) -> (r: Grid)
        ensures
            r == (Grid { x, ..self }),
    {
        Grid { x, ..self }
    }

    /// Set the y-offsets of the horizontal lines.
    pub fn y(self, y: Vec<i64>) -> (r: Grid)
        ensures
            r == (Grid { y, ..self }),
    {
        Grid { y, ..self }
    }

    /// Set the stroke style.
    pub fn stroke(self, stroke: StrokeStyle) -> (r: Grid)
        ensures
            r == (Grid { stroke, ..self }),
    {
        Grid { stroke, ..self }
    }

    /// Stroke solid, in the given color.
    pub fn solid(self, stroke: Color) -> (r: Grid)
        ensures
            r == (Grid { stroke: StrokeStyle::Solid(stroke), ..self }),
    {
        Grid { stroke: StrokeStyle::Solid(stroke), ..self }
    }

    /// Stroke dashed, in the given color with a `(dash, gap)` pattern.
    pub fn dashed(self, stroke: Color, dash_array: (i64, i64)) -> (r: Grid)
        ensures
            r == (Grid { stroke: StrokeStyle::Dashed(stroke, dash_array), ..self }),
    {
        Grid { stroke: StrokeStyle::Dashed(stroke, dash_array), ..self }
    }

    /// The endpoints of every line: the vertical lines in order, then
    /// the horizontal ones.
    pub fn points(&self, bounds: &Bounds) -> (r: Vec<(Point, Point)>)
        requires
            self.wf(),
            bounds.wf(),
        ensures
            r.len() == self.n_lines(),
            forall|i: int| 0 <= i < r.len() ==> #[trigger] r@[i] == self.line_at(*bounds, i),
    {
        let o: Point = bounds.origin;
        let mut r: Vec<(Point, Point)> = Vec::new();
        let mut i: usize = 0;
        while i < self.x.len()
            invariant
                self.wf(),
                bounds.wf(),
                o == bounds.origin,
                i <= self.x.len(),
                r.len() == i,
                forall|k: int| 0 <= k < i ==> #[trigger] r@[k] == self.line_at(*bounds, k),
            decreases self.x.len() - i,
        {
            let xv: i64 = self.x[i];
            r.push(
                (
                    Point { x: xv + o.x, y: o.y },
                    Point { x: xv + o.x, y: bounds.size.height + o.y },
                ),
            );
            i += 1;
        }
        let nx: usize = self.x.len();
        let mut j: usize = 0;
        while j < self.y.len()
            invariant
                self.wf(),
                bounds.wf(),
                o == bounds.origin,
                nx == self.x.len(),
                j <= self.y.len(),
                r.len() == nx + j,
                forall|k: int| 0 <= k < nx + j ==> #[trigger] r@[k] == self.line_at(*bounds, k),
            decreases self.y.len() - j,
        {
            let yv: i64 = self.y[j];
            r.push(
                (
                    Point { x: o.x, y: yv + o.y },
                    Point { x: bounds.size.width + o.x, y: yv + o.y },
                ),
            );
            j += 1;
        }
        r
    }

    /// Paint the grid: one stroked line per offset. A solid grid strokes
    /// each line as one straight piece. A dashed grid strokes the drawn
    /// pieces of each line's dash decomposition, skipping lines with
    /// nothing to draw (a degenerate segment or a zero dash length).
    pub fn paint(&self, bounds: &Bounds) -> (r: Vec<GridLine>)
        requires
            self.wf(),
            bounds.wf(),
            self.stroke matches StrokeStyle::Dashed(c, p) ==> 0 <= p.0 <= COORD_LIMIT && 0
                <= p.1 <= COORD_LIMIT,
        ensures
            self.stroke matches StrokeStyle::Solid(c) ==> {
                &&& r.len() == self.n_lines()
                &&& forall|i: int|
                    0 <= i < r.len() ==> (#[trigger] r@[i]).color == c && r@[i].segs@
                        =~= seq![self.line_at(*bounds, i)]
            },
            self.stroke matches StrokeStyle::Dashed(c, p) ==> {
                &&& r.len() == self.n_lines()
                &&& forall|i: int|
                    0 <= i < r.len() ==> {
                        let line = self.line_at(*bounds, i);
                        &&& (#[trigger] r@[i]).color == c
                        &&& (seg_len(line.0, line.1) == 0 || p.0 == 0) ==> r@[i].segs@.len()
                            == 0
                        &&& (seg_len(line.0, line.1) > 0 && p.0 > 0) ==> dash_segs_ok(
                            line.0,
                            line.1,
                            p.0 as int,
                            p.1 as int,
                            r@[i].segs@,
                        )
                    }
            },
    {
        let lines: Vec<(Point, Point)> = self.points(bounds);
        let mut r: Vec<GridLine> = Vec::new();
        match self.stroke {
            StrokeStyle::Solid(color) => {
                let mut i: usize = 0;
                while i < lines.len()
                    invariant
                        lines.len() == self.n_lines(),
                        forall|k: int|
                            0 <= k < lines.len() ==> #[trigger] lines@[k] == self.line_at(
                                *bounds,
                                k,
                            ),
                        self.stroke == StrokeStyle::Solid(color),
                        i <= lines.len(),
                        r.len() == i,
                        forall|k: int|
                            0 <= k < i ==> (#[trigger] r@[k]).color == color && r@[k].segs@
                                =~= seq![self.line_at(*bounds, k)],
                    decreases lines.len() - i,
                {
                    let (s, e) = lines[i];
                    let mut segs: Vec<(Point, Point)> = Vec::new();
                    segs.push((s, e));
                    r.push(GridLine { color, segs });
                    i += 1;
                }
            },
            StrokeStyle::Dashed(color, dash_array) => {
                let mut i: usize = 0;
                while i < lines.len()
                    invariant
                        self.wf(),
                        bounds.wf(),
                        lines.len() == self.n_lines(),
                        forall|k: int|
                            0 <= k < lines.len() ==> #[trigger] lines@[k] == self.line_at(
                                *bounds,
                                k,
                            ),
                        self.stroke == StrokeStyle::Dashed(color, dash_array),
                        0 <= dash_array.0 <= COORD_LIMIT,
                        0 <= dash_array.1 <= COORD_LIMIT,
                        i <= lines.len(),
                        r.len() == i,
                        forall|k: int|
                            0 <= k < i ==> {
                                let line = self.line_at(*bounds, k);
                                &&& (#[trigger] r@[k]).color == color
                                &&& (seg_len(line.0, line.1) == 0 || dash_array.0 == 0)
                                    ==> r@[k].segs@.len() == 0
                                &&& (seg_len(line.0, line.1) > 0 && dash_array.0 > 0)
                                    ==> dash_segs_ok(
                                    line.0,
                                    line.1,
                                    dash_array.0 as int,
                                    dash_array.1 as int,
                                    r@[k].segs@,
                                )
                            },
                    decreases lines.len() - i,
                {
                    let (s, e) = lines[i];
                    proof {
                        assert(lines@[i as int] == self.line_at(*bounds, i as int));
                        self.lemma_line_in_range(*bounds, i as int);
                    }
                    match dash_line(s, e, dash_array.0, dash_array.1) {
                        Some(segs) => {
                            r.push(GridLine { color, segs });
                        },
                        None => {
                            r.push(GridLine { color, segs: Vec::new() });
                        },
                    }
                    i += 1;
                }
            },
        }
        r
    }

    /// Both endpoints of every grid line stay in coordinate range.
    proof fn lemma_line_in_range(self, bounds: Bounds, i: int)
        requires
            self.wf(),
            bounds.wf(),
            0 <= i < self.n_lines(),
        ensures
            pt_in_paint_range(self.line_at(bounds, i).0),
            pt_in_paint_range(self.line_at(bounds, i).1),
    {
    }
}

} // verus!
