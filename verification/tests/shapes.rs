use plot_geom::chart::PieChart;
use plot_geom::num::Frac;
use plot_geom::shape::arc::{Arc, ArcCmd, ArcData};
use plot_geom::shape::line::{DataPoint, Line};
use plot_geom::shape::pie::Pie;
use plot_geom::{Bounds, PathCmd, Point, Size, StrokeStyle, SUBPX};

const PX: i64 = SUBPX;

fn bounds(w: i64, h: i64) -> Bounds {
    Bounds { origin: Point { x: 0, y: 0 }, size: Size { width: w, height: h } }
}

fn dp(x: i64, y: i64) -> DataPoint {
    DataPoint { x: Some(x), y: Some(y) }
}

fn sector(start: Frac, end: Frac, pad: Frac) -> ArcData {
    ArcData { index: 0, value: 1, start_angle: start, end_angle: end, pad_angle: pad }
}

#[test]
fn test_line_path() {
    let data = vec![dp(PX, 2 * PX), dp(2 * PX, 4 * PX), dp(3 * PX, 6 * PX)];
    let line = Line::new().data(data.clone());

    let b = bounds(100 * PX, 100 * PX);
    let (path, points) = line.path(&b);

    assert!(path.is_some());
    assert!(points.is_empty());

    let line_with_points = Line::new().data(data).point();

    let (_, points) = line_with_points.path(&b);
    assert_eq!(points.len(), 3);
}

#[test]
fn line_empty_and_single_point() {
    let b = bounds(100 * PX, 100 * PX);
    let (path, markers) = Line::new().path(&b);
    assert!(path.is_none());
    assert!(markers.is_empty());

    let (path, _) = Line::new().data(vec![dp(3 * PX, 4 * PX)]).path(&b);
    let cmds = path.unwrap();
    assert_eq!(cmds.len(), 1);
    assert_eq!(cmds[0], PathCmd::MoveTo(Point { x: 3 * PX, y: 4 * PX }));
}

#[test]
fn line_linear_connects_points_straight() {
    let b = bounds(100 * PX, 100 * PX);
    let pts = vec![dp(0, 0), dp(10 * PX, 5 * PX), dp(20 * PX, 0)];
    let (path, _) = Line::new().data(pts).stroke_style(StrokeStyle::Linear).path(&b);
    let cmds = path.unwrap();
    assert_eq!(cmds.len(), 3);
    assert_eq!(cmds[0], PathCmd::MoveTo(Point { x: 0, y: 0 }));
    assert_eq!(cmds[1], PathCmd::LineTo(Point { x: 10 * PX, y: 5 * PX }));
    assert_eq!(cmds[2], PathCmd::LineTo(Point { x: 20 * PX, y: 0 }));
}

#[test]
fn line_natural_passes_through_every_point() {
    // The smooth path anchors exactly on each retained data point.
    let b = bounds(100 * PX, 100 * PX);
    let pts = vec![dp(0, 0), dp(10 * PX, 5 * PX), dp(20 * PX, 0), dp(30 * PX, 5 * PX)];
    let (path, _) = Line::new().data(pts).path(&b);
    let cmds = path.unwrap();
    assert_eq!(cmds.len(), 4);
    assert_eq!(cmds[0], PathCmd::MoveTo(Point { x: 0, y: 0 }));
    let anchors: Vec<Point> = cmds[1..]
        .iter()
        .map(|c| match c {
            PathCmd::CubicTo { to, .. } => *to,
            _ => panic!("expected a cubic segment"),
        })
        .collect();
    assert_eq!(anchors[0], Point { x: 10 * PX, y: 5 * PX });
    assert_eq!(anchors[1], Point { x: 20 * PX, y: 0 });
    assert_eq!(anchors[2], Point { x: 30 * PX, y: 5 * PX });
}

#[test]
fn line_skipped_element_contributes_nothing() {
    // An element missing a coordinate neither adds a vertex or marker
    // nor invents a point: the output equals the series without it.
    let b = bounds(100 * PX, 100 * PX);
    let with_gap = vec![
        dp(0, 0),
        DataPoint { x: Some(5 * PX), y: None },
        dp(10 * PX, 5 * PX),
        dp(20 * PX, 0),
    ];
    let without = vec![dp(0, 0), dp(10 * PX, 5 * PX), dp(20 * PX, 0)];
    let a = Line::new().data(with_gap).point().path(&b);
    let c = Line::new().data(without).point().path(&b);
    assert_eq!(a.0, c.0);
    assert_eq!(a.1, c.1);
    assert_eq!(a.1.len(), 3);
}

#[test]
fn line_markers_center_on_points() {
    let b = bounds(100 * PX, 100 * PX);
    let (_, markers) = Line::new()
        .data(vec![dp(10 * PX, 20 * PX)])
        .point()
        .point_size(8 * PX)
        .point_fill_color(0x2563eb)
        .path(&b);
    assert_eq!(markers.len(), 1);
    assert_eq!(markers[0].x, 6 * PX);
    assert_eq!(markers[0].y, 16 * PX);
    assert_eq!(markers[0].size, 8 * PX);
    assert_eq!(markers[0].fill, 0x2563eb);
    assert_eq!(markers[0].stroke, 0x2563eb);
}

#[test]
fn pie_spans_are_exact_shares_of_a_turn() {
    // The six values sum to 1224; each sector spans value/1224 of a
    // turn, contiguous from zero, and the last ends at exactly one turn.
    let values: Vec<Option<i64>> = [186, 305, 237, 73, 209, 214].iter().map(|v| Some(*v)).collect();
    let arcs = Pie::new().arcs(&values);
    assert_eq!(arcs.len(), 6);
    assert_eq!(arcs[0].start_angle.num, 0);
    let mut expected_cum: i128 = 0;
    for (i, a) in arcs.iter().enumerate() {
        assert_eq!(a.index, i);
        assert_eq!(a.start_angle.den, 1224);
        assert_eq!(a.start_angle.num, expected_cum);
        assert_eq!(a.end_angle.num - a.start_angle.num, a.value as i128);
        expected_cum += a.value as i128;
    }
    // Spans sum to the full circle: the last end is one whole turn.
    assert_eq!(arcs[5].end_angle.num, 1224);
    assert_eq!(arcs[5].end_angle.den, 1224);
}

#[test]
fn pie_skips_absent_and_negative_values() {
    let values = vec![Some(10), None, Some(-3), Some(30)];
    let arcs = Pie::new().arcs(&values);
    assert_eq!(arcs.len(), 2);
    assert_eq!(arcs[0].index, 0);
    assert_eq!(arcs[1].index, 3);
    assert_eq!(arcs[0].start_angle.den, 40);
    assert_eq!(arcs[0].end_angle.num, 10);
    assert_eq!(arcs[1].start_angle.num, 10);
    assert_eq!(arcs[1].end_angle.num, 40);
}

#[test]
fn test_arc_default() {
    let arc = Arc::default();
    assert_eq!(arc.inner_radius, 0);
    assert_eq!(arc.outer_radius, 0);
}

#[test]
fn test_arc_builder() {
    let arc = Arc::new().inner_radius(10 * PX).outer_radius(20 * PX);

    assert_eq!(arc.inner_radius, 10 * PX);
    assert_eq!(arc.outer_radius, 20 * PX);
}

#[test]
fn test_arc_centroid() {
    let arc = Arc::new().inner_radius(10 * PX).outer_radius(20 * PX);

    // Half a turn starting at zero, as the fraction 1/2.
    let arc_data = sector(Frac::new(0, 2), Frac::new(1, 2), Frac::new(0, 2));

    let centroid = arc.centroid(&arc_data);
    // Mid-radius (10 + 20) / 2 = 15 px; mid-angle zero after the
    // quarter-turn rotation.
    assert_eq!(centroid.radius.num, 30 * PX as i128);
    assert_eq!(centroid.radius.den, 2);
    assert_eq!(centroid.angle.num, 0);
    assert_eq!(centroid.angle.den, 40);
}

#[test]
fn arc_wedge_is_single_closed_contour_to_center() {
    // A zero inner radius yields one closed wedge: outer arc, a straight
    // segment to the center, close.
    let arc = Arc::new().outer_radius(100 * PX);
    let quarter = sector(Frac::new(0, 4), Frac::new(1, 4), Frac::new(0, 4));
    let b = bounds(400 * PX, 400 * PX);
    let p = arc.path(&quarter, &b).unwrap();
    assert_eq!(p.center, Point { x: 200 * PX, y: 200 * PX });
    assert_eq!(p.cmds.len(), 4);
    // Fudge: clamp(10 px, 3 px, 10 px) = 10 px, so the outer edge is 110 px.
    match p.cmds[0] {
        ArcCmd::MoveTo { radius, .. } => assert_eq!(radius, 110 * PX),
        _ => panic!("expected a move"),
    }
    match p.cmds[1] {
        ArcCmd::ArcTo { radius, large_arc, sweep, .. } => {
            assert_eq!(radius, 110 * PX);
            assert!(!large_arc);
            assert!(sweep);
        },
        _ => panic!("expected the outer arc"),
    }
    assert_eq!(p.cmds[2], ArcCmd::LineToCenter);
    assert_eq!(p.cmds[3], ArcCmd::Close);
}

#[test]
fn arc_ring_returns_along_inner_edge() {
    let arc = Arc::new().inner_radius(80 * PX).outer_radius(100 * PX);
    let quarter = sector(Frac::new(0, 4), Frac::new(1, 4), Frac::new(0, 4));
    let b = bounds(400 * PX, 400 * PX);
    let p = arc.path(&quarter, &b).unwrap();
    assert_eq!(p.cmds.len(), 5);
    match p.cmds[2] {
        ArcCmd::LineTo { radius, .. } => assert_eq!(radius, 70 * PX),
        _ => panic!("expected the segment to the inner edge"),
    }
    match p.cmds[3] {
        ArcCmd::ArcTo { radius, sweep, .. } => {
            assert_eq!(radius, 70 * PX);
            assert!(!sweep);
        },
        _ => panic!("expected the inner arc"),
    }
    assert_eq!(p.cmds[4], ArcCmd::Close);
}

#[test]
fn arc_degenerate_sectors_emit_nothing() {
    let b = bounds(400 * PX, 400 * PX);
    // Zero outer radius.
    let arc = Arc::new().outer_radius(0);
    let quarter = sector(Frac::new(0, 4), Frac::new(1, 4), Frac::new(0, 4));
    assert!(arc.path(&quarter, &b).is_none());
    // Zero angular span.
    let arc = Arc::new().outer_radius(100 * PX);
    let empty = sector(Frac::new(1, 4), Frac::new(1, 4), Frac::new(0, 4));
    assert!(arc.path(&empty, &b).is_none());
}

#[test]
fn arc_inner_pad_clamp_engages_on_narrow_rings() {
    // A nearly degenerate ring (inner 0.95 of outer) with a wide pad:
    // the inner gap is clamped to four fifths of the span, so a fifth of
    // the span survives at the inner edge.
    let arc = Arc::new().inner_radius(95 * PX).outer_radius(100 * PX);
    let s = sector(Frac::new(0, 40), Frac::new(4, 40), Frac::new(3, 40));
    let b = bounds(400 * PX, 400 * PX);
    let p = arc.path(&s, &b).unwrap();
    assert_eq!(p.cmds.len(), 5);
    // The span is 80 grid units; the clamped inner pad is 64, leaving 16.
    let a1_inner = match p.cmds[2] {
        ArcCmd::LineTo { angle, .. } => angle,
        _ => panic!("expected the segment to the inner edge"),
    };
    let a0_inner = match p.cmds[3] {
        ArcCmd::ArcTo { angle, .. } => angle,
        _ => panic!("expected the inner arc"),
    };
    assert_eq!(a0_inner.den, 800);
    assert_eq!(a1_inner.num - a0_inner.num, 16);
    assert!(a1_inner.num - a0_inner.num >= 80 / 5);
}

#[test]
fn pie_chart_builders_and_paint() {
    let chart = PieChart::new();
    assert!(!chart.donut && !chart.pad_angle);
    let chart = PieChart::new().donut();
    assert!(chart.donut && !chart.pad_angle);
    let chart = PieChart::new().donut().pad_angle();
    assert!(chart.donut && chart.pad_angle);

    let values: Vec<Option<i64>> = [186, 305, 237, 73, 209, 214].iter().map(|v| Some(*v)).collect();
    let colors: Vec<u32> = vec![0x2a9d90, 0xe76e50, 0x274754, 0xe8c468, 0xf4a462, 0x2563eb];
    let b = bounds(450 * PX, 450 * PX);
    let painted = chart.paint(&values, &colors, &b);
    assert_eq!(painted.len(), 6);
    assert_eq!(painted[1].2, 0xe76e50);
    for (sector, path, _) in &painted {
        assert!(sector.value >= 0);
        assert_eq!(path.as_ref().unwrap().cmds.len(), 5);
    }
}

#[test]
fn line_paint_bundles_path_markers_and_style() {
    let b = bounds(100 * PX, 100 * PX);
    let paint = Line::new()
        .data(vec![dp(0, 0), dp(10 * PX, 5 * PX)])
        .stroke(0x2563eb)
        .stroke_width(2 * PX)
        .point()
        .paint(&b);
    assert!(paint.path.is_some());
    assert_eq!(paint.markers.len(), 2);
    assert_eq!(paint.stroke, 0x2563eb);
    assert_eq!(paint.stroke_width, 2 * PX);
}

#[test]
fn arc_paint_pairs_contour_with_color() {
    let arc = Arc::new().outer_radius(100 * PX);
    let quarter = sector(Frac::new(0, 4), Frac::new(1, 4), Frac::new(0, 4));
    let b = bounds(400 * PX, 400 * PX);
    let painted = arc.paint(&quarter, 0xe76e50, &b).unwrap();
    assert_eq!(painted.1, 0xe76e50);
    assert_eq!(painted.0.cmds.len(), 4);
    let empty = sector(Frac::new(1, 4), Frac::new(1, 4), Frac::new(0, 4));
    assert!(arc.paint(&empty, 0xe76e50, &b).is_none());
}
