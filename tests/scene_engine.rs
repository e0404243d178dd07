use viewport_canvas::geometry::{
    Bounds, Point, Size, SCREEN_UNITS_PER_PIXEL, WORLD_LIMIT, WORLD_UNITS_PER_PIXEL,
};
use viewport_canvas::scene::{Interaction, ViewportApp};
use viewport_canvas::textbox::DraggableTextBox;
use viewport_canvas::viewport::{Viewport, ZoomStep};

const W: i64 = WORLD_UNITS_PER_PIXEL;
const S: i64 = SCREEN_UNITS_PER_PIXEL;

/// A world point given in pixels.
fn pt(x: i64, y: i64) -> Point {
    Point { x: x * W, y: y * W }
}

/// A screen point given in pixels.
fn sp(x: i64, y: i64) -> Point {
    Point { x: x * S, y: y * S }
}

/// A world size given in pixels.
fn sz(width: i64, height: i64) -> Size {
    Size { width: width * W, height: height * W }
}

fn empty_app() -> ViewportApp {
    ViewportApp {
        textboxes: Vec::new(),
        viewport: Viewport::new(),
        interaction: Interaction::Idle,
        next_id: 0,
    }
}

fn app_with(boxes: &[(i64, i64, i64, i64)]) -> ViewportApp {
    let mut app = empty_app();
    for &(x, y, w, h) in boxes {
        app.add_box(pt(x, y), sz(w, h)).unwrap();
    }
    app
}

fn positions(app: &ViewportApp) -> Vec<Point> {
    app.textboxes.iter().map(|b| b.position).collect()
}

#[test]
fn new_app_has_two_boxes() {
    let app = ViewportApp::new();
    assert_eq!(app.textboxes.len(), 2);
    assert_eq!(app.textboxes[0], DraggableTextBox::new(pt(100, 100), sz(200, 100), 0));
    assert_eq!(app.textboxes[1], DraggableTextBox::new(pt(400, 300), sz(200, 100), 1));
    assert_eq!(app.viewport, Viewport::new());
    assert_eq!(app.interaction, Interaction::Idle);
    assert_eq!(app.next_id, 2);
}

#[test]
fn bounds_are_position_and_size() {
    let b = DraggableTextBox::new(pt(3, 4), sz(5, 6), 9);
    assert_eq!(b.bounds(), Bounds { origin: pt(3, 4), size: sz(5, 6) });
}

#[test]
fn overlap_is_strict() {
    let a = DraggableTextBox::new(pt(0, 0), sz(100, 100), 0);
    let touching_right = DraggableTextBox::new(pt(100, 0), sz(100, 100), 1);
    let touching_below = DraggableTextBox::new(pt(0, 100), sz(100, 100), 2);
    let inside_by_one = DraggableTextBox::new(pt(99, 99), sz(100, 100), 3);
    let far = DraggableTextBox::new(pt(300, 0), sz(100, 100), 4);
    assert!(!a.overlaps(&touching_right));
    assert!(!touching_right.overlaps(&a));
    assert!(!a.overlaps(&touching_below));
    assert!(a.overlaps(&inside_by_one));
    assert!(inside_by_one.overlaps(&a));
    assert!(!a.overlaps(&far));
}

#[test]
fn zero_area_box_overlaps_only_from_inside() {
    let a = DraggableTextBox::new(pt(0, 0), sz(100, 100), 0);
    let on_edge = DraggableTextBox::new(pt(100, 50), sz(0, 0), 1);
    let on_corner = DraggableTextBox::new(pt(0, 0), sz(0, 0), 2);
    let inside = DraggableTextBox::new(pt(50, 50), sz(0, 0), 3);
    assert!(!a.overlaps(&on_edge));
    assert!(!on_edge.overlaps(&a));
    assert!(!a.overlaps(&on_corner));
    assert!(a.overlaps(&inside));
    assert!(!on_corner.overlaps(&on_corner));
}

#[test]
fn cascade_pushes_overlapping_box_once() {
    let mut app = app_with(&[(0, 0, 100, 100), (90, 0, 100, 100), (300, 0, 100, 100)]);
    let order = app.update_textbox_position(0, pt(20, 0));
    assert_eq!(order, vec![0, 1]);
    assert_eq!(positions(&app), vec![pt(20, 0), pt(110, 0), pt(300, 0)]);
}

#[test]
fn cascade_by_pointer_drag() {
    let mut app = app_with(&[(0, 0, 100, 100), (90, 0, 100, 100), (300, 0, 100, 100)]);
    app.on_pointer_down(sp(50, 50), Some(0));
    assert_eq!(app.interaction, Interaction::Dragging { box_id: 0, grab_offset: pt(50, 50) });
    let order = app.on_pointer_move(sp(70, 50));
    assert_eq!(order, vec![0, 1]);
    assert_eq!(positions(&app), vec![pt(20, 0), pt(110, 0), pt(300, 0)]);
    app.on_pointer_up();
    assert_eq!(app.interaction, Interaction::Idle);
    assert_eq!(positions(&app), vec![pt(20, 0), pt(110, 0), pt(300, 0)]);
}

#[test]
fn cascade_follows_a_chain() {
    let mut app = app_with(&[
        (0, 0, 100, 100),
        (95, 0, 100, 100),
        (250, 0, 100, 100),
        (340, 0, 100, 100),
    ]);
    // The first box pushes the second to 155..255, which then reaches the
    // third; the third, pushed to 310..410, still overlaps the fourth.
    let order = app.update_textbox_position(0, pt(60, 0));
    assert_eq!(order, vec![0, 1, 2, 3]);
    assert_eq!(positions(&app), vec![pt(60, 0), pt(155, 0), pt(310, 0), pt(400, 0)]);
}

#[test]
fn cascade_visits_each_box_once_when_all_overlap() {
    let mut app = app_with(&[(0, 0, 100, 100), (10, 10, 100, 100), (20, 20, 100, 100), (30, 30, 100, 100)]);
    let order = app.update_textbox_position(0, pt(5, 5));
    assert_eq!(order.len(), 4);
    let mut sorted = order.clone();
    sorted.sort();
    assert_eq!(sorted, vec![0, 1, 2, 3]);
    assert_eq!(positions(&app), vec![pt(5, 5), pt(15, 15), pt(25, 25), pt(35, 35)]);
}

#[test]
fn cascade_leaves_boxes_the_drag_moves_away_from() {
    let mut app = app_with(&[(0, 0, 100, 100), (90, 0, 100, 100)]);
    let order = app.update_textbox_position(0, pt(-20, 0));
    assert_eq!(order, vec![0]);
    assert_eq!(positions(&app), vec![pt(-20, 0), pt(90, 0)]);
}

#[test]
fn update_with_unknown_index_changes_nothing() {
    let mut app = ViewportApp::new();
    let order = app.update_textbox_position(5, pt(1, 1));
    assert!(order.is_empty());
    assert_eq!(positions(&app), vec![pt(100, 100), pt(400, 300)]);
}

#[test]
fn handle_collisions_pushes_by_given_delta() {
    let mut app = app_with(&[(20, 0, 100, 100), (90, 0, 100, 100)]);
    let order = app.handle_collisions(0, pt(20, 0));
    assert_eq!(order, vec![0, 1]);
    assert_eq!(positions(&app), vec![pt(20, 0), pt(110, 0)]);
}

#[test]
fn end_to_end_zoom_keeps_point_under_cursor() {
    let mut app = app_with(&[(100, 100, 200, 100)]);
    assert_eq!(app.viewport.transform_point(pt(100, 100)), sp(100, 100));
    assert_eq!(app.viewport.transform_point(pt(300, 100)), sp(300, 100));
    app.on_scroll(sp(100, 100), ZoomStep::In);
    assert_eq!(app.viewport.zoom, 1100);
    assert_eq!(app.viewport.center, Point { x: 9_090_909, y: 9_090_909 });
    // Within 1e-4 pixel of (100, 100) and (320, 100).
    let tolerance = S / 10_000;
    let anchored = app.viewport.transform_point(pt(100, 100));
    assert!((anchored.x - 100 * S).abs() <= tolerance && (anchored.y - 100 * S).abs() <= tolerance);
    let shifted = app.viewport.transform_point(pt(300, 100));
    assert!((shifted.x - 320 * S).abs() <= tolerance && (shifted.y - 100 * S).abs() <= tolerance);
    assert_eq!(app.textboxes[0].position, pt(100, 100));
}

#[test]
fn scroll_out_zooms_out() {
    let mut app = ViewportApp::new();
    app.on_scroll(sp(0, 0), ZoomStep::Out);
    assert_eq!(app.viewport.zoom, 900);
    assert_eq!(app.viewport.center, pt(0, 0));
}

#[test]
fn slow_pan_at_high_zoom_still_moves() {
    let mut app = ViewportApp::new();
    app.viewport.set_zoom(5000);
    app.on_pointer_down(sp(10, 10), None);
    for step in 1..=5 {
        app.on_pointer_move(sp(10 + step, 10));
    }
    assert_eq!(app.viewport.center, pt(-1, 0));
}

#[test]
fn pan_by_pointer() {
    let mut app = ViewportApp::new();
    app.viewport.set_zoom(2000);
    app.on_pointer_down(sp(10, 10), None);
    assert_eq!(app.interaction, Interaction::Panning { last: sp(10, 10) });
    let order = app.on_pointer_move(sp(110, 60));
    assert!(order.is_empty());
    assert_eq!(app.viewport.center, pt(-50, -25));
    assert_eq!(app.interaction, Interaction::Panning { last: sp(110, 60) });
    app.on_pointer_move(sp(110, 160));
    assert_eq!(app.viewport.center, pt(-50, -75));
    assert_eq!(positions(&app), vec![pt(100, 100), pt(400, 300)]);
    app.on_pointer_up();
    assert_eq!(app.interaction, Interaction::Idle);
}

#[test]
fn drag_keeps_grab_offset_under_zoom() {
    let mut app = ViewportApp::new();
    app.viewport.set_zoom(2000);
    // Screen (240, 240) is world (120, 120): 20 units into the first box.
    app.on_pointer_down(sp(240, 240), Some(0));
    assert_eq!(app.interaction, Interaction::Dragging { box_id: 0, grab_offset: pt(20, 20) });
    app.on_pointer_move(sp(340, 240));
    assert_eq!(positions(&app), vec![pt(150, 100), pt(400, 300)]);
}

#[test]
fn pointer_down_outside_idle_is_ignored() {
    let mut app = ViewportApp::new();
    app.on_pointer_down(sp(0, 0), None);
    app.on_pointer_down(sp(150, 150), Some(0));
    assert_eq!(app.interaction, Interaction::Panning { last: sp(0, 0) });
}

#[test]
fn pointer_down_on_unknown_box_is_ignored() {
    let mut app = ViewportApp::new();
    app.on_pointer_down(sp(0, 0), Some(42));
    assert_eq!(app.interaction, Interaction::Idle);
}

#[test]
fn pointer_move_while_idle_changes_nothing() {
    let mut app = ViewportApp::new();
    let order = app.on_pointer_move(sp(500, 500));
    assert!(order.is_empty());
    assert_eq!(positions(&app), vec![pt(100, 100), pt(400, 300)]);
    assert_eq!(app.viewport, Viewport::new());
}

#[test]
fn dragging_a_removed_box_changes_nothing() {
    let mut app = ViewportApp::new();
    app.on_pointer_down(sp(150, 150), Some(0));
    app.remove_box(0);
    let order = app.on_pointer_move(sp(10, 10));
    assert!(order.is_empty());
    assert_eq!(positions(&app), vec![pt(400, 300)]);
}

#[test]
fn add_and_remove_boxes_by_identity() {
    let mut app = ViewportApp::new();
    assert_eq!(app.add_box(pt(0, 0), sz(10, 10)), Some(2));
    assert_eq!(app.add_box(pt(50, 0), sz(-4, 10)), Some(3));
    assert_eq!(app.textboxes[3].size, sz(0, 10));
    app.remove_box(1);
    let ids: Vec<usize> = app.textboxes.iter().map(|b| b.id).collect();
    assert_eq!(ids, vec![0, 2, 3]);
    app.remove_box(1);
    assert_eq!(app.textboxes.len(), 3);
    assert_eq!(app.add_box(pt(0, 0), sz(1, 1)), Some(4));
}

#[test]
fn add_box_clamps_to_world() {
    let limit = WORLD_LIMIT;
    let mut app = empty_app();
    app.add_box(Point { x: i64::MAX, y: i64::MIN }, Size { width: i64::MAX, height: 3 }).unwrap();
    assert_eq!(app.textboxes[0].position, Point { x: limit, y: -limit });
    assert_eq!(app.textboxes[0].size, Size { width: limit, height: 3 });
}

#[test]
fn add_box_refuses_when_identities_run_out() {
    let mut app = empty_app();
    app.next_id = usize::MAX;
    assert_eq!(app.add_box(pt(0, 0), sz(1, 1)), None);
    assert!(app.textboxes.is_empty());
}

#[test]
fn render_boxes_maps_to_screen() {
    let mut app = ViewportApp::new();
    app.viewport = Viewport { zoom: 500, center: pt(100, 100) };
    let drawn = app.render_boxes();
    let screen_size = Size { width: 100 * S, height: 50 * S };
    assert_eq!(drawn, vec![(0, sp(0, 0), screen_size), (1, sp(150, 100), screen_size)]);
}

#[test]
fn reset_view_without_boxes_restores_default() {
    let mut app = empty_app();
    app.viewport = Viewport { zoom: 3000, center: pt(40, 40) };
    app.reset_view(Size { width: 800 * S, height: 600 * S });
    assert_eq!(app.viewport, Viewport::new());
}

#[test]
fn reset_view_fits_single_box() {
    let mut app = app_with(&[(100, 100, 200, 100)]);
    app.reset_view(Size { width: 800 * S, height: 600 * S });
    assert_eq!(app.viewport, Viewport { zoom: 2400, center: Point { x: 33_333_333, y: 25_000_000 } });
    // The box's middle lands in the middle of the screen.
    assert_eq!(app.viewport.transform_point(pt(200, 150)), Point { x: 400 * S + 800, y: 300 * S });
}

#[test]
fn reset_view_fits_several_boxes_with_margin() {
    let mut app = ViewportApp::new();
    app.reset_view(Size { width: 800 * S, height: 600 * S });
    assert_eq!(app.viewport, Viewport { zoom: 1333, center: Point { x: 49_924_981, y: 24_943_736 } });
}

#[test]
fn reset_view_clamps_fit_zoom() {
    let mut dot = app_with(&[(5, 5, 0, 0)]);
    dot.reset_view(Size { width: 800 * S, height: 600 * S });
    assert_eq!(dot.viewport, Viewport { zoom: 3000, center: Point { x: -128_333_333, y: -95_000_000 } });
    let mut spread = app_with(&[(0, 0, 10, 10), (100000, 0, 10, 10)]);
    spread.reset_view(Size { width: 800 * S, height: 600 * S });
    assert_eq!(spread.viewport, Viewport { zoom: 100, center: pt(46005, -2995) });
}
