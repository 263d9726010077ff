//! Line shape: converts a data series into a single stroked path, with
//! optional circular point markers.
//!
//! Each series element carries the results of the caller's x and y
//! accessors (typically a scale's `tick`, rounded to the sub-pixel grid).
//! An element where either accessor yielded no value is skipped entirely:
//! it produces neither a path vertex nor a marker, and interpolation runs
//! across the gap without inventing a point.

use crate::num::div_floor;
use crate::{
    in_coord_range, pt_in_range, Bounds, Color, PathCmd, Point, StrokeStyle, COORD_LIMIT, SUBPX,
};
use vstd::prelude::*;

verus! {

/// One element of a line series: the x and y accessor results for one
/// data element, in sub-pixel units, each possibly absent.
#[derive(Clone, Copy, Debug, PartialEq, Eq, Structural)]
pub struct DataPoint {
    pub x: Option<i64>,
    pub y: Option<i64>,
}

/// A filled (optionally separately stroked) circular point marker: a quad
/// whose top-left corner is `(x, y)`, of the given side length, with a
/// corner radius of half the side.
#[derive(Clone, Copy, Debug, PartialEq, Eq, Structural)]
pub struct Marker {
    pub x: i64,
    pub y: i64,
    pub size: i64,
    pub fill: Color,
    pub stroke: Color,
}

/// An element is retained when both of its coordinates are present.
pub open spec fn is_kept(d: DataPoint) -> bool {
    d.x is Some && d.y is Some
}

/// The retained points of a series, in order.
pub open spec fn retained(data: Seq<DataPoint>) -> Seq<Point>
    decreases data.len(),
{
    if data.len() == 0 {
        Seq::empty()
    } else {
        let rest = retained(data.drop_last());
        let d = data.last();
        if is_kept(d) {
            rest.push(Point { x: d.x.unwrap(), y: d.y.unwrap() })
        } else {
            rest
        }
    }
}

/// All coordinates of a series are in range.
pub open spec fn data_in_range(data: Seq<DataPoint>) -> bool {
    forall|i: int|
        0 <= i < data.len() ==> {
            &&& ((#[trigger] data[i]).x matches Some(v) ==> in_coord_range(v as int))
            &&& (data[i].y matches Some(v) ==> in_coord_range(v as int))
        }
}

/// A point translated by the bounds' origin.
pub open spec fn translate(p: Point, o: Point) -> Point {
    Point { x: (p.x + o.x) as i64, y: (p.y + o.y) as i64 }
}

proof fn lemma_retained_step(data: Seq<DataPoint>, i: int)
    requires
        0 <= i < data.len(),
    ensures
        is_kept(data[i]) ==> retained(data.take(i + 1)) == retained(data.take(i)).push(
            Point { x: data[i].x.unwrap(), y: data[i].y.unwrap() },
        ),
        !is_kept(data[i]) ==> retained(data.take(i + 1)) == retained(data.take(i)),
{
    assert(data.take(i + 1).drop_last() =~= data.take(i));
    assert(data.take(i + 1).last() == data[i]);
}

/// Every retained point's coordinates come from the series, so they stay
/// in range.
proof fn lemma_retained_range(data: Seq<DataPoint>)
    requires
        data_in_range(data),
    ensures
        forall|j: int|
            0 <= j < retained(data).len() ==> pt_in_range(#[trigger] retained(data)[j]),
    decreases data.len(),
{
    if data.len() > 0 {
        assert(data_in_range(data.drop_last())) by {
            assert forall|i: int|
                0 <= i < data.drop_last().len() implies {
                &&& ((#[trigger] data.drop_last()[i]).x matches Some(v) ==> in_coord_range(
                    v as int,
                ))
                &&& (data.drop_last()[i].y matches Some(v) ==> in_coord_range(v as int))
            } by {
                assert(data.drop_last()[i] == data[i]);
            }
        }
        lemma_retained_range(data.drop_last());
        let prev = retained(data.drop_last());
        assert forall|j: int|
            0 <= j < retained(data).len() implies pt_in_range(
            #[trigger] retained(data)[j],
        ) by {
            if j < prev.len() {
                assert(retained(data)[j] == prev[j]);
            } else {
                let d = data.last();
                assert(data[data.len() - 1] == d);
                assert(d.x matches Some(v) ==> in_coord_range(v as int));
                assert(d.y matches Some(v) ==> in_coord_range(v as int));
            }
        }
    }
}

/// An element lacking either coordinate is inert: removing it from the
/// series leaves the retained point sequence unchanged, so it contributes
/// neither a path vertex nor a marker, and the path runs across the gap
/// without inventing a point.
pub proof fn lemma_skipped_element_inert(data: Seq<DataPoint>, i: int)
    requires
        0 <= i < data.len(),
        !is_kept(data[i]),
    ensures
        retained(data.remove(i)) == retained(data),
    decreases data.len(),
{
    if i == data.len() - 1 {
        assert(data.remove(i) =~= data.drop_last());
    } else {
        assert(data.remove(i).drop_last() =~= data.drop_last().remove(i));
        assert(data.remove(i).last() == data.last());
        lemma_skipped_element_inert(data.drop_last(), i);
    }
}

/// First spline control point of the segment from `p1` to `p2`, with
/// `p0` the point before `p1` (Catmull-Rom to Bezier): `p1 + (p2 - p0) / 6`,
/// rounded down to the sub-pixel grid.
pub open spec fn natural_c1(p0: Point, p1: Point, p2: Point) -> Point {
    Point {
        x: (p1.x + (p2.x - p0.x) / 6) as i64,
        y: (p1.y + (p2.y - p0.y) / 6) as i64,
    }
}

/// Second spline control point of the segment from `p1` to `p2`, with
/// `p3` the point after `p2`: `p2 - (p3 - p1) / 6`, rounded down to the
/// sub-pixel grid.
pub open spec fn natural_c2(p1: Point, p2: Point, p3: Point) -> Point {
    Point {
        x: (p2.x - (p3.x - p1.x) / 6) as i64,
        y: (p2.y - (p3.y - p1.y) / 6) as i64,
    }
}

/// The path command that connects `pts[j - 1]` to `pts[j]`, for `j >= 1`:
/// a straight segment, or a cubic Bezier whose control points derive from
/// the neighboring points, clamped to the ends of the series.
pub open spec fn cmd_at(pts: Seq<Point>, style: StrokeStyle, j: int) -> PathCmd {
    match style {
        StrokeStyle::Linear => PathCmd::LineTo(pts[j]),
        StrokeStyle::Natural => {
            let p0 = if j >= 2 {
                pts[j - 2]
            } else {
                pts[0]
            };
            let p3 = if j + 1 < pts.len() {
                pts[j + 1]
            } else {
                pts[pts.len() - 1]
            };
            PathCmd::CubicTo {
                ctrl1: natural_c1(p0, pts[j - 1], pts[j]),
                ctrl2: natural_c2(pts[j - 1], pts[j], p3),
                to: pts[j],
            }
        },
    }
}

/// The marker for retained point `i`: centered on the point, so its
/// top-left corner sits half a side up and left of it.
pub open spec fn marker_at(p: Point, size: int, fill: Color, stroke: Color) -> Marker {
    Marker {
        x: (p.x - size / 2) as i64,
        y: (p.y - size / 2) as i64,
        size: size as i64,
        fill,
        stroke,
    }
}

/// A line shape: the series, stroke styling, and optional point markers.
#[derive(Clone, Debug)]
pub struct Line {
    pub data: Vec<DataPoint>,
    pub stroke: Color,
    pub stroke_width: i64,
    pub stroke_style: StrokeStyle,
    pub point: bool,
    pub point_size: i64,
    pub point_fill_color: Color,
    pub point_stroke_color: Option<Color>,
}

impl Line {
    pub open spec fn wf(self) -> bool {
        &&& data_in_range(self.data@)
        &&& 0 <= self.point_size <= COORD_LIMIT
        &&& 0 <= self.stroke_width <= COORD_LIMIT
    }

    /// The translated retained points the shape draws through.
    pub open spec fn pts_of(self, origin: Point) -> Seq<Point> {
        retained(self.data@).map_values(|p: Point| translate(p, origin))
    }

    /// The border color of a marker: the separate stroke color when one
    /// is set, else the fill color.
    pub open spec fn marker_stroke(self) -> Color {
        match self.point_stroke_color {
            Some(c) => c,
            None => self.point_fill_color,
        }
    }

    /// A new line shape: no data, hairline stroke, smooth interpolation,
    /// markers off with a four-pixel default size and transparent fill.
    pub fn new() -> (r: Line)
        ensures
            r.data@.len() == 0,
            r.stroke == 0u32,
            r.stroke_width == SUBPX,
            r.stroke_style == StrokeStyle::Natural,
            r.point == false,
            r.point_size == 4 * SUBPX,
            r.point_fill_color == 0u32,
            r.point_stroke_color is None,
            r.wf(),
    {
        Line {
            data: Vec::new(),
            stroke: 0,
            stroke_width: SUBPX,
            stroke_style: StrokeStyle::Natural,
            point: false,
            point_size: 4 * SUBPX,
            point_fill_color: 0,
            point_stroke_color: None,
        }
    }

    /// Replace the series.
    pub fn data(self, data: Vec<DataPoint>) -> (r: Line)
        ensures
            r == (Line { data, ..self }),
    {
        Line { data, ..self }
    }

    /// Set the stroke color.
    pub fn stroke(self, stroke: Color) -> (r: Line)
        ensures
            r == (Line { stroke, ..self }),
    {
        Line { stroke, ..self }
    }

    /// Set the stroke width, in sub-pixel units.
    pub fn stroke_width(self, stroke_width: i64) -> (r: Line)
        requires
            0 <= stroke_width <= COORD_LIMIT,
        ensures
            r == (Line { stroke_width, ..self }),
    {
        Line { stroke_width, ..self }
    }

    /// Set the interpolation style.
    pub fn stroke_style(self, stroke_style: StrokeStyle) -> (r: Line)
        ensures
            r == (Line { stroke_style, ..self }),
    {
        Line { stroke_style, ..self }
    }

    /// Enable point markers.
    pub fn point(self) -> (r: Line)
        ensures
            r == (Line { point: true, ..self }),
    {
        Line { point: true, ..self }
    }

    /// Set the marker side length, in sub-pixel units.
    pub fn point_size(self, point_size: i64) -> (r: Line)
        requires
            0 <= point_size <= COORD_LIMIT,
        ensures
            r == (Line { point_size, ..self }),
    {
        Line { point_size, ..self }
    }

    /// Set the marker fill color.
    pub fn point_fill_color(self, point_fill_color: Color) -> (r: Line)
        ensures
            r == (Line { point_fill_color, ..self }),
    {
        Line { point_fill_color, ..self }
    }

    /// Set a separate marker border color.
    pub fn point_stroke_color(self, point_stroke_color: Color) -> (r: Line)
        ensures
            r == (Line { point_stroke_color: Some(point_stroke_color), ..self }),
    {
        Line { point_stroke_color: Some(point_stroke_color), ..self }
    }

    /// What the built output holds, for the translated retained points:
    /// no point yields no path; one yields a single move; two or more
    /// yield a path anchored exactly on the points, joined per the
    /// interpolation style; markers, when enabled, center on every
    /// retained point.
    pub open spec fn output_ok(
        self,
        origin: Point,
        path: Option<Vec<PathCmd>>,
        markers: Vec<Marker>,
    ) -> bool {
        let pts = self.pts_of(origin);
        &&& pts.len() == 0 ==> path is None
        &&& pts.len() >= 1 ==> {
            &&& path matches Some(cmds)
            &&& cmds@.len() == pts.len()
            &&& cmds@[0] == PathCmd::MoveTo(pts[0])
            &&& forall|j: int|
                1 <= j < pts.len() ==> #[trigger] cmds@[j] == cmd_at(pts, self.stroke_style, j)
        }
        &&& self.point ==> {
            &&& markers@.len() == pts.len()
            &&& forall|j: int|
                0 <= j < pts.len() ==> #[trigger] markers@[j] == marker_at(
                    pts[j],
                    self.point_size as int,
                    self.point_fill_color,
                    self.marker_stroke(),
                )
        }
        &&& !self.point ==> markers@.len() == 0
    }

    /// Build the path and the markers for the current series.
    ///
    /// Skipped elements contribute nothing. No retained point yields no
    /// path; exactly one yields a single move-to; two or more yield a
    /// connected path whose anchors are exactly the retained points, each
    /// consecutive pair joined as the interpolation style directs. With
    /// markers enabled, one marker is centered on every retained point,
    /// whether or not a path was built.
    pub fn path(&self, bounds: &Bounds) -> (r: (Option<Vec<PathCmd>>, Vec<Marker>))
        requires
            self.wf(),
            bounds.wf(),
        ensures
            self.output_ok(bounds.origin, r.0, r.1),
    {
        let origin = bounds.origin;
        let n: usize = self.data.len();
        let ghost all_pts = self.pts_of(bounds.origin);
        proof {
            lemma_retained_range(self.data@);
            assert(self.data@.take(n as int) =~= self.data@);
        }
        // Collect the retained points, translated into absolute space.
        let mut pts: Vec<Point> = Vec::new();
        let mut i: usize = 0;
        while i < n
            invariant
                self.wf(),
                bounds.wf(),
                n == self.data.len(),
                i <= n,
                origin == bounds.origin,
                pts@ == retained(self.data@.take(i as int)).map_values(
                    |p: Point| translate(p, origin),
                ),
            decreases n - i,
        {
            proof {
                lemma_retained_step(self.data@, i as int);
                lemma_retained_range(self.data@);
            }
            let d = self.data[i];
            match (d.x, d.y) {
                (Some(x), Some(y)) => {
                    proof {
                        assert(retained(self.data@.take(i as int + 1)) == retained(
                            self.data@.take(i as int),
                        ).push(Point { x, y }));
                    }
                    pts.push(Point { x: x + origin.x, y: y + origin.y });
                    proof {
                        assert(pts@ =~= retained(self.data@.take(i as int + 1)).map_values(
                            |p: Point| translate(p, origin),
                        ));
                    }
                },
                _ => {},
            }
            i += 1;
        }
        let m: usize = pts.len();
        proof {
            assert(pts@ == all_pts);
            assert(forall|j: int| 0 <= j < retained(self.data@).len() ==> pt_in_range(
                #[trigger] retained(self.data@)[j],
            ));
            assert forall|j: int| 0 <= j < m implies -2 * COORD_LIMIT <= #[trigger] pts@[j].x
                <= 2 * COORD_LIMIT && -2 * COORD_LIMIT <= pts@[j].y <= 2 * COORD_LIMIT by {
                assert(pts@[j] == translate(retained(self.data@)[j], origin));
            }
        }
        // Markers: one per retained point, centered on it.
        let mut markers: Vec<Marker> = Vec::new();
        if self.point {
            let half: i64 = div_floor(self.point_size as i128, 2) as i64;
            let stroke_c: Color = match self.point_stroke_color {
                Some(c) => c,
                None => self.point_fill_color,
            };
            let mut i: usize = 0;
            while i < m
                invariant
                    self.wf(),
                    self.point,
                    m == pts.len(),
                    i <= m,
                    half == self.point_size as int / 2,
                    stroke_c == self.marker_stroke(),
                    forall|j: int|
                        0 <= j < m ==> -2 * COORD_LIMIT <= (#[trigger] pts@[j]).x <= 2
                            * COORD_LIMIT && -2 * COORD_LIMIT <= pts@[j].y <= 2 * COORD_LIMIT,
                    markers@.len() == i,
                    forall|j: int|
                        0 <= j < i ==> #[trigger] markers@[j] == marker_at(
                            pts@[j],
                            self.point_size as int,
                            self.point_fill_color,
                            self.marker_stroke(),
                        ),
                decreases m - i,
            {
                let p = pts[i];
                markers.push(
                    Marker {
                        x: p.x - half,
                        y: p.y - half,
                        size: self.point_size,
                        fill: self.point_fill_color,
                        stroke: stroke_c,
                    },
                );
                i += 1;
            }
        }
        // The path itself.
        if m == 0 {
            return (None, markers);
        }
        let mut cmds: Vec<PathCmd> = Vec::new();
        cmds.push(PathCmd::MoveTo(pts[0]));
        if m == 1 {
            return (Some(cmds), markers);
        }
        match self.stroke_style {
            StrokeStyle::Linear => {
                let mut j: usize = 1;
                while j < m
                    invariant
                        self.stroke_style == StrokeStyle::Linear,
                        m == pts.len(),
                        1 <= j <= m,
                        pts@ == all_pts,
                        cmds@.len() == j,
                        cmds@[0] == PathCmd::MoveTo(all_pts[0]),
                        forall|k: int|
                            1 <= k < j ==> #[trigger] cmds@[k] == cmd_at(
                                all_pts,
                                self.stroke_style,
                                k,
                            ),
                    decreases m - j,
                {
                    cmds.push(PathCmd::LineTo(pts[j]));
                    j += 1;
                }
            },
            StrokeStyle::Natural => {
                let mut j: usize = 1;
                while j < m
                    invariant
                        self.stroke_style == StrokeStyle::Natural,
                        m == pts.len(),
                        1 <= j <= m,
                        pts@ == all_pts,
                        forall|k: int|
                            0 <= k < m ==> -2 * COORD_LIMIT <= (#[trigger] pts@[k]).x <= 2
                                * COORD_LIMIT && -2 * COORD_LIMIT <= pts@[k].y <= 2
                                * COORD_LIMIT,
                        cmds@.len() == j,
                        cmds@[0] == PathCmd::MoveTo(all_pts[0]),
                        forall|k: int|
                            1 <= k < j ==> #[trigger] cmds@[k] == cmd_at(
                                all_pts,
                                self.stroke_style,
                                k,
                            ),
                    decreases m - j,
                {
                    let p0 = if j >= 2 {
                        pts[j - 2]
                    } else {
                        pts[0]
                    };
                    let p1 = pts[j - 1];
                    let p2 = pts[j];
                    let p3 = if j + 1 < m {
                        pts[j + 1]
                    } else {
                        pts[m - 1]
                    };
                    let c1 = Point {
                        x: p1.x + div_floor(p2.x as i128 - p0.x as i128, 6) as i64,
                        y: p1.y + div_floor(p2.y as i128 - p0.y as i128, 6) as i64,
                    };
                    let c2 = Point {
                        x: p2.x - div_floor(p3.x as i128 - p1.x as i128, 6) as i64,
                        y: p2.y - div_floor(p3.y as i128 - p1.y as i128, 6) as i64,
                    };
                    cmds.push(PathCmd::CubicTo { ctrl1: c1, ctrl2: c2, to: p2 });
                    j += 1;
                }
            },
        }
        (Some(cmds), markers)
    }

    /// Build everything one paint pass submits: the stroked path with
    /// its color and width, and the markers. The drawing caller strokes
    /// the path first, then fills the markers, in that order.
    pub fn paint(&self, bounds: &Bounds) -> (r: LinePaint)
        requires
            self.wf(),
            bounds.wf(),
        ensures
            self.output_ok(bounds.origin, r.path, r.markers),
            r.stroke == self.stroke,
            r.stroke_width == self.stroke_width,
    {
        let (path, markers) = self.path(bounds);
        LinePaint { path, markers, stroke: self.stroke, stroke_width: self.stroke_width }
    }
}

/// One paint pass of a line shape: the path to stroke, in its color and
/// width, and the markers to fill on top of it.
#[derive(Clone, Debug)]
pub struct LinePaint {
    pub path: Option<Vec<PathCmd>>,
    pub markers: Vec<Marker>,
    pub stroke: Color,
    pub stroke_width: i64,
}

} // verus!
