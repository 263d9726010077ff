use plot_geom::grid::Grid;
use plot_geom::primitives::{dash_intervals, dash_line, polygon};
use plot_geom::{Bounds, PathCmd, Point, Size, SUBPX};

const PX: i64 = SUBPX;

fn bounds(ox: i64, oy: i64, w: i64, h: i64) -> Bounds {
    Bounds { origin: Point { x: ox, y: oy }, size: Size { width: w, height: h } }
}

#[test]
fn dash_intervals_cover_with_pattern_period() {
    // Length 100, pattern [7, 3]: ten full patterns, each drawing 7.
    let ivs = dash_intervals(100, 7, 3);
    assert_eq!(ivs.len(), 10);
    assert_eq!(ivs[0], (0, 7));
    assert_eq!(ivs[1], (10, 17));
    assert_eq!(ivs[9], (90, 97));
    let total: i64 = ivs.iter().map(|(s, e)| e - s).sum();
    assert_eq!(total, 70);
}

#[test]
fn dash_intervals_clip_the_last_pattern() {
    // Length 95: nine full dashes plus min(95 - 90, 7) = 5 drawn.
    let ivs = dash_intervals(95, 7, 3);
    assert_eq!(ivs.len(), 10);
    assert_eq!(ivs[9], (90, 95));
    let total: i64 = ivs.iter().map(|(s, e)| e - s).sum();
    assert_eq!(total, 9 * 7 + 5);
}

#[test]
fn dash_intervals_empty_segment_yields_nothing() {
    let ivs = dash_intervals(0, 7, 3);
    assert_eq!(ivs.len(), 0);
}

#[test]
fn dash_line_zero_length_or_zero_dash_is_none() {
    let p = Point { x: 5, y: 5 };
    let q = Point { x: 105, y: 5 };
    assert!(dash_line(p, p, 7, 3).is_none());
    assert!(dash_line(p, q, 0, 3).is_none());
    assert!(dash_line(p, q, 7, 3).is_some());
}

#[test]
fn dash_line_horizontal_exact_points() {
    let a = Point { x: 0, y: 4 };
    let b = Point { x: 100, y: 4 };
    let segs = dash_line(a, b, 7, 3).unwrap();
    assert_eq!(segs.len(), 10);
    assert_eq!(segs[0], (Point { x: 0, y: 4 }, Point { x: 7, y: 4 }));
    assert_eq!(segs[3], (Point { x: 30, y: 4 }, Point { x: 37, y: 4 }));
    assert_eq!(segs[9], (Point { x: 90, y: 4 }, Point { x: 97, y: 4 }));
}

#[test]
fn polygon_open_path_through_points() {
    let pts = vec![
        Point { x: 0, y: 0 },
        Point { x: 10, y: 5 },
        Point { x: 20, y: 0 },
    ];
    let b = bounds(100, 200, 50, 50);
    let cmds = polygon(&pts, &b).unwrap();
    assert_eq!(cmds.len(), 3);
    assert_eq!(cmds[0], PathCmd::MoveTo(Point { x: 100, y: 200 }));
    assert_eq!(cmds[1], PathCmd::LineTo(Point { x: 110, y: 205 }));
    assert_eq!(cmds[2], PathCmd::LineTo(Point { x: 120, y: 200 }));
    assert!(polygon(&Vec::new(), &b).is_none());
}

#[test]
fn grid_points_vertical_then_horizontal() {
    let g = Grid::new().x(vec![10 * PX, 20 * PX]).y(vec![5 * PX]);
    let b = bounds(PX, 2 * PX, 100 * PX, 50 * PX);
    let lines = g.points(&b);
    assert_eq!(lines.len(), 3);
    // A vertical line runs the full height at its x-offset.
    assert_eq!(lines[0].0, Point { x: 11 * PX, y: 2 * PX });
    assert_eq!(lines[0].1, Point { x: 11 * PX, y: 52 * PX });
    // A horizontal line runs the full width at its y-offset.
    assert_eq!(lines[2].0, Point { x: PX, y: 7 * PX });
    assert_eq!(lines[2].1, Point { x: 101 * PX, y: 7 * PX });
}

#[test]
fn grid_solid_paints_one_path_per_line() {
    let g = Grid::new().x(vec![10 * PX, 20 * PX]).y(vec![5 * PX, 15 * PX, 25 * PX]).solid(0xf0f0f0);
    let b = bounds(0, 0, 100 * PX, 50 * PX);
    let painted = g.paint(&b);
    assert_eq!(painted.len(), 5);
    for line in &painted {
        assert_eq!(line.color, 0xf0f0f0);
        assert_eq!(line.segs.len(), 1);
    }
    assert_eq!(painted[0].segs[0].0, Point { x: 10 * PX, y: 0 });
    assert_eq!(painted[0].segs[0].1, Point { x: 10 * PX, y: 50 * PX });
}

#[test]
fn grid_dashed_decomposes_each_line() {
    let g = Grid::new().y(vec![5 * PX]).dashed(0x333333, (7, 3));
    let b = bounds(0, 0, 100, 50 * PX);
    let painted = g.paint(&b);
    assert_eq!(painted.len(), 1);
    assert_eq!(painted[0].color, 0x333333);
    // A 100-unit line with pattern [7, 3] has ten drawn pieces.
    assert_eq!(painted[0].segs.len(), 10);
    assert_eq!(painted[0].segs[0], (Point { x: 0, y: 5 * PX }, Point { x: 7, y: 5 * PX }));
}

#[test]
fn grid_dashed_degenerate_line_has_nothing_to_draw() {
    // A grid over zero-size bounds still reports one entry per line,
    // with nothing to stroke on a zero-length line.
    let g = Grid::new().y(vec![0]).dashed(0x333333, (7, 3));
    let b = bounds(0, 0, 0, 0);
    let painted = g.paint(&b);
    assert_eq!(painted.len(), 1);
    assert!(painted[0].segs.is_empty());
}
