//! A 2D chart-geometry engine.
//!
//! Given abstract data series and pixel-space layout bounds, this crate
//! computes coordinate mappings ("scales") and renderable path primitives:
//! polylines and smooth spline paths, dashed straight segments, grid lines,
//! and pie/donut arc sectors.
//!
//! All geometry is exact. Coordinates are fixed-point integers counted in
//! sub-pixel units ([`SUBPX`] units per pixel), and derived quantities that
//! are not representable on that grid (scale positions, angles) are exact
//! rational numbers ([`num::Frac`]). Angles are measured in turns (one turn
//! is a full circle), so that sector spans of a pie layout are exact
//! fractions. A caller that draws the output converts commands to its own
//! floating-point surface; nothing here depends on such a surface.

use vstd::prelude::*;

pub mod chart;
pub mod grid;
pub mod num;
pub mod primitives;
pub mod scale;
pub mod shape;

verus! {

/// Number of coordinate units in one pixel.
pub const SUBPX: i64 = 1_000_000;

/// Largest coordinate magnitude, in sub-pixel units, that the geometry
/// functions accept (one million pixels in either direction).
pub const COORD_LIMIT: i64 = 1_000_000_000_000;

/// A value usable as a coordinate.
pub open spec fn in_coord_range(v: int) -> bool {
    -COORD_LIMIT <= v <= COORD_LIMIT
}

/// A position in pixel space, in sub-pixel units.
#[derive(Clone, Copy, Debug, PartialEq, Eq, Structural)]
pub struct Point {
    pub x: i64,
    pub y: i64,
}

/// Both coordinates of a point are in range.
pub open spec fn pt_in_range(p: Point) -> bool {
    in_coord_range(p.x as int) && in_coord_range(p.y as int)
}

/// A point already translated into absolute space: its coordinates may
/// reach twice the coordinate limit.
pub open spec fn pt_in_paint_range(p: Point) -> bool {
    -2 * COORD_LIMIT <= p.x <= 2 * COORD_LIMIT && -2 * COORD_LIMIT <= p.y <= 2 * COORD_LIMIT
}

/// An extent in pixel space, in sub-pixel units.
#[derive(Clone, Copy, Debug, PartialEq, Eq, Structural)]
pub struct Size {
    pub width: i64,
    pub height: i64,
}

/// A rectangular drawing region: an origin and an extent.
#[derive(Clone, Copy, Debug, PartialEq, Eq, Structural)]
pub struct Bounds {
    pub origin: Point,
    pub size: Size,
}

impl Bounds {
    /// Origin and size are in range.
    pub open spec fn wf(self) -> bool {
        pt_in_range(self.origin) && in_coord_range(self.size.width as int)
            && in_coord_range(self.size.height as int)
    }
}

/// A solid color, as a 32-bit RGBA value. The engine never inspects it;
/// it is carried through to the emitted paint commands.
pub type Color = u32;

/// One step of a straight-segment or cubic-spline path.
#[derive(Clone, Copy, Debug, PartialEq, Eq, Structural)]
pub enum PathCmd {
    MoveTo(Point),
    LineTo(Point),
    CubicTo { ctrl1: Point, ctrl2: Point, to: Point },
}

/// Interpolation style of the line shape: a smooth curve through all
/// points, or straight point-to-point segments.
#[derive(Clone, Copy, Debug, PartialEq, Eq, Structural)]
pub enum StrokeStyle {
    Natural,
    Linear,
}

impl Default for StrokeStyle {
    /// The default interpolation is the smooth curve.
    fn default() -> (r: Self)
        ensures
            r == StrokeStyle::Natural,
    {
        StrokeStyle::Natural
    }
}

/// Translate a local coordinate pair into the absolute coordinate space of
/// the drawing surface by vector addition with the bounds' origin.
pub fn origin_point(x: i64, y: i64, origin: Point) -> (r: Point)
    requires
        in_coord_range(x as int),
        in_coord_range(y as int),
        pt_in_range(origin),
    ensures
        r.x == x + origin.x,
        r.y == y + origin.y,
{
    Point { x: x + origin.x, y: y + origin.y }
}

} // verus!
