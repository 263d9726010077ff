use plot_geom::num::Frac;
use plot_geom::scale::{ScaleBand, ScaleLinear, ScalePoint};
use plot_geom::SUBPX;

const PX: i64 = SUBPX;

#[test]
fn frac_rational_equality() {
    let a = Frac::new(1, 2);
    let b = Frac::new(2, 4);
    let c = Frac::new(3, 4);
    assert!(a.eq_rat(&b));
    assert!(!a.eq_rat(&c));
    assert!(a.le(&c));
    assert!(!c.le(&a));
}

#[test]
fn linear_tick_maps_endpoints_exactly() {
    let s = ScaleLinear::new(vec![0, 100], vec![0, 600 * PX]);
    let t0 = s.tick(&0).unwrap();
    let t1 = s.tick(&100).unwrap();
    let tm = s.tick(&50).unwrap();
    assert!(t0.eq_rat(&Frac::from_int(0)));
    assert!(t1.eq_rat(&Frac::from_int(600 * PX)));
    assert!(tm.eq_rat(&Frac::from_int(300 * PX)));
}

#[test]
fn linear_tick_monotonic() {
    let s = ScaleLinear::new(vec![0, 100], vec![0, 600 * PX]);
    let mut prev = s.tick(&0).unwrap();
    for v in [10, 25, 50, 99, 100] {
        let t = s.tick(&v).unwrap();
        assert!(prev.le(&t));
        prev = t;
    }
}

#[test]
fn linear_degenerate_domain_falls_back_to_r0() {
    let s = ScaleLinear::new(vec![7, 7], vec![40, 900]);
    let t = s.tick(&123).unwrap();
    assert!(t.eq_rat(&Frac::from_int(40)));
}

#[test]
fn band_width_closed_form() {
    // Six categories, range width 600 px, padding_inner 0.4 and
    // padding_outer 0.2: step = 600 / (6 - 0.4 + 0.4) = 100 px, and each
    // band resolves to step * (1 - 0.4) = 60 px.
    let s = ScaleBand::new((0..6).collect(), vec![0, 600 * PX])
        .padding_inner(Frac::new(400, 1000))
        .padding_outer(Frac::new(200, 1000));
    let bw = s.band_width();
    assert!(bw.eq_rat(&Frac::from_int(60 * PX)));
}

#[test]
fn band_zero_padding_tiles_the_range() {
    // With padding 0 the six slots tile the range: band_width * 6 == 600 px.
    let s = ScaleBand::new((0..6).collect(), vec![0, 600 * PX]);
    let bw = s.band_width();
    let six_bw = Frac::new(bw.num * 6, bw.den);
    assert!(six_bw.eq_rat(&Frac::from_int(600 * PX)));
    // And the first slot starts at the very edge of the range.
    let t0 = s.tick(&0).unwrap();
    assert!(t0.eq_rat(&Frac::from_int(0)));
}

#[test]
fn band_tick_matches_only_known_categories() {
    let s = ScaleBand::new(vec![11, 22, 33], vec![0, 300 * PX]);
    assert!(s.tick(&22).is_some());
    assert!(s.tick(&44).is_none());
    // Slot positions with no padding: 0, 100 px, 200 px.
    assert!(s.tick(&22).unwrap().eq_rat(&Frac::from_int(100 * PX)));
    assert!(s.tick(&33).unwrap().eq_rat(&Frac::from_int(200 * PX)));
}

#[test]
fn point_tick_places_categories_evenly() {
    let s = ScalePoint::new(vec![5, 6, 7], vec![0, 100 * PX]);
    assert!(s.tick(&5).unwrap().eq_rat(&Frac::from_int(0)));
    assert!(s.tick(&6).unwrap().eq_rat(&Frac::from_int(50 * PX)));
    assert!(s.tick(&7).unwrap().eq_rat(&Frac::from_int(100 * PX)));
    assert!(s.tick(&8).is_none());
}

#[test]
fn point_single_category_sits_at_range_start() {
    let s = ScalePoint::new(vec![5], vec![30 * PX, 100 * PX]);
    assert!(s.tick(&5).unwrap().eq_rat(&Frac::from_int(30 * PX)));
}

#[test]
fn point_least_index_finds_nearest() {
    let s = ScalePoint::new(vec![5, 6, 7], vec![0, 100 * PX]);
    // Positions at 0, 50 px, 100 px.
    assert_eq!(s.least_index(Frac::from_int(10 * PX)), 0);
    assert_eq!(s.least_index(Frac::from_int(40 * PX)), 1);
    assert_eq!(s.least_index(Frac::from_int(95 * PX)), 2);
    // A tie halfway picks the earlier index.
    assert_eq!(s.least_index(Frac::from_int(25 * PX)), 0);
}

#[test]
fn band_least_index_finds_nearest_slot() {
    let s = ScaleBand::new(vec![1, 2, 3], vec![0, 300 * PX]);
    // Slot left edges at 0, 100 px, 200 px.
    assert_eq!(s.least_index(Frac::from_int(0)), 0);
    assert_eq!(s.least_index(Frac::from_int(120 * PX)), 1);
    assert_eq!(s.least_index(Frac::from_int(260 * PX)), 2);
}
