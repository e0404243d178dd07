use viewport_canvas::geometry::{
    round_div, Point, Size, SCREEN_UNITS_PER_PIXEL, WORLD_LIMIT, WORLD_UNITS_PER_PIXEL,
};
use viewport_canvas::viewport::{Viewport, ZoomStep};

const W: i64 = WORLD_UNITS_PER_PIXEL;
const S: i64 = SCREEN_UNITS_PER_PIXEL;

/// A world point given in pixels.
fn wp(x: i64, y: i64) -> Point {
    Point { x: x * W, y: y * W }
}

/// A screen point given in pixels.
fn sp(x: i64, y: i64) -> Point {
    Point { x: x * S, y: y * S }
}

/// Tolerance of 1e-4 pixel, in world units.
const WORLD_TOLERANCE: i64 = W / 10_000;

#[test]
fn new_viewport_is_identity() {
    let v = Viewport::new();
    assert_eq!(v.zoom, 1000);
    assert_eq!(v.center, Point { x: 0, y: 0 });
    assert_eq!(v.transform_point(wp(100, 100)), sp(100, 100));
    assert_eq!(v.inverse_transform_point(sp(-40, 7)), wp(-40, 7));
}

#[test]
fn transform_scales_about_center() {
    let v = Viewport { zoom: 2000, center: wp(10, -5) };
    assert_eq!(v.transform_point(wp(110, 45)), sp(200, 100));
    assert_eq!(v.inverse_transform_point(sp(200, 100)), wp(110, 45));
    let half = Viewport { zoom: 500, center: wp(0, 0) };
    assert_eq!(half.transform_point(Point { x: 301, y: -301 }), Point { x: 150_500, y: -150_500 });
}

#[test]
fn transform_size_has_no_translation() {
    let v = Viewport { zoom: 1500, center: wp(1000, 1000) };
    assert_eq!(v.transform_size(Size { width: 200 * W, height: 100 * W }), Size { width: 300 * S, height: 150 * S });
    assert_eq!(v.transform_size(Size { width: 0, height: 1 }), Size { width: 0, height: 1500 });
}

#[test]
fn far_corner_agrees_with_transformed_size() {
    let v = Viewport { zoom: 500, center: Point { x: 0, y: 0 } };
    let a = v.transform_point(Point { x: 1, y: 1 });
    let b = v.transform_point(Point { x: 2, y: 2 });
    let size = v.transform_size(Size { width: 1, height: 1 });
    assert_eq!(b.x - a.x, size.width);
    assert_eq!(b.y - a.y, size.height);
}

#[test]
fn round_div_rounds_halves_up() {
    assert_eq!(round_div(5, 2), 3);
    assert_eq!(round_div(-5, 2), -2);
    assert_eq!(round_div(7, 3), 2);
    assert_eq!(round_div(-7, 3), -2);
    assert_eq!(round_div(100_000, 1100), 91);
}

#[test]
fn round_trip_is_exact() {
    let points = [wp(12345, -999), wp(7, 11), Point { x: 1, y: 1 }, Point { x: -3, y: 2 }];
    for zoom in [100, 333, 1000, 1234, 5000] {
        let v = Viewport { zoom, center: Point { x: 7, y: -3 } };
        for p in points {
            assert_eq!(v.inverse_transform_point(v.transform_point(p)), p);
        }
    }
}

#[test]
fn round_trip_at_one_tenth() {
    let v = Viewport { zoom: 100, center: wp(5, -3) };
    let s = v.transform_point(wp(7, 11));
    assert_eq!(s, Point { x: 200_000_000, y: 1_400_000_000 });
    assert_eq!(v.inverse_transform_point(s), wp(7, 11));
}

#[test]
fn screen_round_trip_is_within_half_a_world_unit() {
    for zoom in [100, 777, 1000, 5000] {
        let v = Viewport { zoom, center: Point { x: 13, y: -8 } };
        for s in [Point { x: 1, y: 1 }, Point { x: 123_456_789, y: -987_654_321 }, sp(640, 480)] {
            let back = v.transform_point(v.inverse_transform_point(s));
            let z = zoom as i64;
            assert!(2 * (back.x - s.x).abs() <= z);
            assert!(2 * (back.y - s.y).abs() <= z);
        }
    }
}

#[test]
fn screen_vector_maps_to_world_vector_over_zoom() {
    let v = Viewport { zoom: 2000, center: Point { x: 0, y: 0 } };
    let a = v.inverse_transform_point(sp(1, 1));
    let b = v.inverse_transform_point(sp(2, 2));
    assert_eq!(b.x - a.x, W / 2);
    assert_eq!(b.y - a.y, W / 2);
}

#[test]
fn zoom_steps_are_multiplicative() {
    let mut v = Viewport::new();
    let mut seen = Vec::new();
    for _ in 0..5 {
        v.zoom_at(sp(0, 0), ZoomStep::In);
        seen.push(v.zoom);
    }
    assert_eq!(seen, vec![1100, 1210, 1331, 1464, 1610]);
    v.zoom_at(sp(0, 0), ZoomStep::Out);
    assert_eq!(v.zoom, 1449);
}

#[test]
fn cursor_stays_anchored_through_zoom_steps() {
    let mut v = Viewport::new();
    let cursor = sp(250, -40);
    let before = v.inverse_transform_point(cursor);
    let steps = [
        ZoomStep::In,
        ZoomStep::In,
        ZoomStep::Out,
        ZoomStep::In,
        ZoomStep::In,
        ZoomStep::In,
        ZoomStep::Out,
        ZoomStep::Out,
        ZoomStep::In,
    ];
    for step in steps {
        v.zoom_at(cursor, step);
        assert_eq!(v.inverse_transform_point(cursor), before);
    }
    assert_eq!(v.zoom, 1293);
    assert_eq!(v.center, Point { x: 56_651_199, y: -9_064_192 });
}

#[test]
fn anchored_center_is_exact_to_a_millionth() {
    let mut v = Viewport::new();
    v.zoom_at(sp(100, 100), ZoomStep::In);
    assert_eq!(v.zoom, 1100);
    // 100 - 100 / 1.1 = 100 / 11 pixels.
    let exact = 100.0 * W as f64 / 11.0;
    assert!((v.center.x as f64 - exact).abs() <= WORLD_TOLERANCE as f64);
    assert!((v.center.y as f64 - exact).abs() <= WORLD_TOLERANCE as f64);
    assert_eq!(v.center, Point { x: 9_090_909, y: 9_090_909 });
}

#[test]
fn zoom_in_saturates_at_five() {
    let mut v = Viewport::new();
    for _ in 0..100 {
        v.zoom_at(sp(30, 30), ZoomStep::In);
        assert!(v.zoom <= 5000);
    }
    assert_eq!(v.zoom, 5000);
}

#[test]
fn zoom_out_saturates_at_one_tenth() {
    let mut v = Viewport::new();
    for _ in 0..100 {
        v.zoom_at(sp(30, 30), ZoomStep::Out);
        assert!(v.zoom >= 100);
    }
    assert_eq!(v.zoom, 100);
}

#[test]
fn set_zoom_clamps() {
    let mut v = Viewport::new();
    v.set_zoom(20_000);
    assert_eq!(v.zoom, 5000);
    v.set_zoom(0);
    assert_eq!(v.zoom, 100);
    v.set_zoom(2500);
    assert_eq!(v.zoom, 2500);
    assert_eq!(v.center, Point { x: 0, y: 0 });
}

#[test]
fn pan_moves_inversely_to_zoom() {
    let cases = [
        (500, wp(-200, -100)),
        (1000, wp(-100, -50)),
        (2000, wp(-50, -25)),
        (3000, Point { x: -33_333_333, y: -16_666_667 }),
        (5000, wp(-20, -10)),
    ];
    for (zoom, center) in cases {
        let mut v = Viewport { zoom, center: Point { x: 0, y: 0 } };
        v.pan_by(sp(100, 50));
        assert_eq!(v.center, center);
        assert_eq!(v.zoom, zoom);
    }
}

#[test]
fn one_pixel_pan_at_high_zoom_moves_the_center() {
    let mut v = Viewport { zoom: 5000, center: Point { x: 0, y: 0 } };
    v.pan_by(sp(1, 1));
    // 1 / 5 = 0.2 pixel.
    assert_eq!(v.center, Point { x: -200_000, y: -200_000 });
    let mut w = Viewport { zoom: 3000, center: Point { x: 0, y: 0 } };
    w.pan_by(sp(1, 0));
    let exact = -(W as f64) / 3.0;
    assert!((w.center.x as f64 - exact).abs() <= WORLD_TOLERANCE as f64);
}

#[test]
fn pan_saturates_at_world_limit() {
    let mut v = Viewport { zoom: 100, center: Point { x: WORLD_LIMIT - 5, y: 0 } };
    v.pan_by(sp(-1000, 0));
    assert_eq!(v.center, Point { x: WORLD_LIMIT, y: 0 });
}
