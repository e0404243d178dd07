//! The view: a zoom factor and a center, and the mapping between world and
//! screen coordinates that they define.
//!
//! `transform(w) = (w - center) * zoom` and
//! `inverse_transform(s) = s / zoom + center`, with the zoom in thousandths.
//! A screen unit is a thousandth of a world unit, so `transform` is exact
//! and `inverse_transform` rounds to the nearest world unit, a millionth of a
//! pixel.
use vstd::prelude::*;
use crate::geometry::{
    clamp, clamp_i64, lemma_rounded_quotient_error, lemma_rounded_quotient_exact, round_div,
    rounded_quotient, Point, Size, SCREEN_LIMIT, WORLD_LIMIT,
};

verus! {

/// Smallest zoom, in thousandths.
pub const MIN_ZOOM: u32 = 100;

/// Largest zoom reached by stepping or by `set_zoom`, in thousandths.
pub const MAX_ZOOM: u32 = 5000;

/// Zoom 1: a world unit onto a thousand screen units, a pixel onto a pixel.
pub const UNIT_ZOOM: u32 = 1000;

/// Bound on the world coordinates that `inverse_transform_point` returns.
pub const INVERSE_LIMIT: i64 = 0x0040_0000_0000_0000;

/// One multiplicative zoom step: in by a factor 11/10, out by 9/10.
#[derive(Clone, Copy, Debug, PartialEq, Eq, Structural)]
pub enum ZoomStep {
    In,
    Out,
}

/// The mapping between world and screen space.
#[derive(Clone, Copy, Debug, PartialEq, Eq, Structural)]
pub struct Viewport {
    /// Scale factor in thousandths.
    pub zoom: u32,
    /// The world point that maps onto the screen origin.
    pub center: Point,
}

/// Screen coordinate of world coordinate `w`.
pub open spec fn transform_coord(w: int, center: int, zoom: int) -> int {
    (w - center) * zoom
}

/// World coordinate of screen coordinate `s`.
pub open spec fn inverse_coord(s: int, center: int, zoom: int) -> int {
    rounded_quotient(s, zoom) + center
}

/// An extent scaled by the zoom.
pub open spec fn scale_extent(e: int, zoom: int) -> int {
    e * zoom
}

/// The zoom after one step, before it is held in range.
pub open spec fn raw_stepped_zoom(zoom: int, step: ZoomStep) -> int {
    match step {
        ZoomStep::In => rounded_quotient(zoom * 11, 10),
        ZoomStep::Out => rounded_quotient(zoom * 9, 10),
    }
}

/// The zoom after one step, held in `[MIN_ZOOM, MAX_ZOOM]`.
pub open spec fn stepped_zoom(zoom: int, step: ZoomStep) -> int {
    clamp(raw_stepped_zoom(zoom, step), MIN_ZOOM as int, MAX_ZOOM as int)
}

/// The center coordinate after a zoom from `z0` to `z1` anchored at screen
/// coordinate `s`, before it is held in range.
pub open spec fn raw_anchored_center(s: int, center: int, z0: int, z1: int) -> int {
    center + inverse_coord(s, center, z0) - inverse_coord(s, center, z1)
}

/// World displacement of the center for a screen drag of `d`.
pub open spec fn pan_shift(d: int, zoom: int) -> int {
    rounded_quotient(d, zoom)
}

impl Viewport {
    /// The zoom lies in `[MIN_ZOOM, MAX_ZOOM]` and the center within the
    /// world limit.
    pub open spec fn wf(self) -> bool {
        &&& MIN_ZOOM <= self.zoom <= MAX_ZOOM
        &&& self.center.in_world()
    }

    /// The view after a cursor-anchored zoom step at screen point `cursor`.
    pub open spec fn zoomed_at(self, cursor: Point, step: ZoomStep) -> Viewport {
        let z1 = stepped_zoom(self.zoom as int, step);
        Viewport {
            zoom: z1 as u32,
            center: Point {
                x: clamp(
                    raw_anchored_center(cursor.x as int, self.center.x as int, self.zoom as int, z1),
                    -WORLD_LIMIT,
                    WORLD_LIMIT as int,
                ) as i64,
                y: clamp(
                    raw_anchored_center(cursor.y as int, self.center.y as int, self.zoom as int, z1),
                    -WORLD_LIMIT,
                    WORLD_LIMIT as int,
                ) as i64,
            },
        }
    }

    /// The anchored step keeps its center in range without holding it there.
    pub open spec fn anchors_exactly(self, cursor: Point, step: ZoomStep) -> bool {
        let z1 = stepped_zoom(self.zoom as int, step);
        &&& -WORLD_LIMIT <= raw_anchored_center(cursor.x as int, self.center.x as int, self.zoom as int, z1) <= WORLD_LIMIT
        &&& -WORLD_LIMIT <= raw_anchored_center(cursor.y as int, self.center.y as int, self.zoom as int, z1) <= WORLD_LIMIT
    }

    /// The view after panning by the screen displacement `delta`.
    pub open spec fn panned(self, delta: Point) -> Viewport {
        Viewport {
            zoom: self.zoom,
            center: Point {
                x: clamp(
                    self.center.x - pan_shift(delta.x as int, self.zoom as int),
                    -WORLD_LIMIT,
                    WORLD_LIMIT as int,
                ) as i64,
                y: clamp(
                    self.center.y - pan_shift(delta.y as int, self.zoom as int),
                    -WORLD_LIMIT,
                    WORLD_LIMIT as int,
                ) as i64,
            },
        }
    }

    /// The view at zoom 1 centered on the world origin.
    pub open spec fn new_spec() -> Viewport {
        Viewport { zoom: UNIT_ZOOM, center: Point { x: 0, y: 0 } }
    }

    /// A view at zoom 1 centered on the world origin.
    pub fn new() -> (v: Self)
        ensures
            v.wf(),
            v == Viewport::new_spec(),
            v.zoom == UNIT_ZOOM,
            v.center == (Point { x: 0, y: 0 }),
    {
        Viewport { zoom: UNIT_ZOOM, center: Point { x: 0, y: 0 } }
    }

    /// Screen position of world point `p`.
    pub fn transform_point(&self, p: Point) -> (r: Point)
        requires
            self.wf(),
            p.in_world(),
        ensures
            r.x == transform_coord(p.x as int, self.center.x as int, self.zoom as int),
            r.y == transform_coord(p.y as int, self.center.y as int, self.zoom as int),
            r.in_screen(),
    {
        proof {
            lemma_transform_in_screen(p.x as int, self.center.x as int, self.zoom as int);
            lemma_transform_in_screen(p.y as int, self.center.y as int, self.zoom as int);
        }
        let z = self.zoom as i64;
        Point { x: (p.x - self.center.x) * z, y: (p.y - self.center.y) * z }
    }

    /// World position of screen point `p`.
    pub fn inverse_transform_point(&self, p: Point) -> (r: Point)
        requires
            self.wf(),
            p.in_screen(),
        ensures
            r.x == inverse_coord(p.x as int, self.center.x as int, self.zoom as int),
            r.y == inverse_coord(p.y as int, self.center.y as int, self.zoom as int),
            r.within(INVERSE_LIMIT as int),
    {
        proof {
            lemma_inverse_bounded(p.x as int, SCREEN_LIMIT as int, self.zoom as int);
            lemma_inverse_bounded(p.y as int, SCREEN_LIMIT as int, self.zoom as int);
        }
        let z = self.zoom as i64;
        Point { x: round_div(p.x, z) + self.center.x, y: round_div(p.y, z) + self.center.y }
    }

    /// Screen extent of a world size; sizes have no translation.
    pub fn transform_size(&self, s: Size) -> (r: Size)
        requires
            self.wf(),
            s.in_world(),
        ensures
            r.width == scale_extent(s.width as int, self.zoom as int),
            r.height == scale_extent(s.height as int, self.zoom as int),
            r.width >= 0,
            r.height >= 0,
    {
        proof {
            lemma_transform_in_screen(s.width as int, 0, self.zoom as int);
            lemma_transform_in_screen(s.height as int, 0, self.zoom as int);
        }
        let z = self.zoom as i64;
        assert(s.width * z >= 0 && s.height * z >= 0) by (nonlinear_arith)
            requires
                s.width >= 0,
                s.height >= 0,
                z > 0,
        ;
        Size { width: s.width * z, height: s.height * z }
    }

    /// Sets the zoom, saturating at `MIN_ZOOM` and `MAX_ZOOM`.
    pub fn set_zoom(&mut self, zoom: u32)
        requires
            old(self).wf(),
        ensures
            final(self).wf(),
            final(self).zoom == clamp(zoom as int, MIN_ZOOM as int, MAX_ZOOM as int),
            final(self).center == old(self).center,
    {
        self.zoom = if zoom < MIN_ZOOM {
            MIN_ZOOM
        } else if zoom > MAX_ZOOM {
            MAX_ZOOM
        } else {
            zoom
        };
    }

    /// Applies one zoom step while keeping the world point under screen
    /// point `cursor` where it is; the center saturates at the world limit.
    pub fn zoom_at(&mut self, cursor: Point, step: ZoomStep)
        requires
            old(self).wf(),
            cursor.in_screen(),
        ensures
            final(self).wf(),
            *final(self) == old(self).zoomed_at(cursor, step),
    {
        let before = self.inverse_transform_point(cursor);
        let z = self.zoom as i64;
        let raw = match step {
            ZoomStep::In => round_div(z * 11, 10),
            ZoomStep::Out => round_div(z * 9, 10),
        };
        let z1 = clamp_i64(raw, MIN_ZOOM as i64, MAX_ZOOM as i64);
        self.zoom = z1 as u32;
        let after = self.inverse_transform_point(cursor);
        self.center = Point {
            x: clamp_i64(self.center.x + before.x - after.x, -WORLD_LIMIT, WORLD_LIMIT),
            y: clamp_i64(self.center.y + before.y - after.y, -WORLD_LIMIT, WORLD_LIMIT),
        };
    }

    /// Moves the view by a screen displacement: the center moves the other
    /// way by `delta / zoom` world units, saturating at the world limit.
    pub fn pan_by(&mut self, delta: Point)
        requires
            old(self).wf(),
            delta.within(2 * SCREEN_LIMIT),
        ensures
            final(self).wf(),
            *final(self) == old(self).panned(delta),
    {
        proof {
            lemma_inverse_bounded(delta.x as int, 2 * SCREEN_LIMIT, self.zoom as int);
            lemma_inverse_bounded(delta.y as int, 2 * SCREEN_LIMIT, self.zoom as int);
        }
        let z = self.zoom as i64;
        let dx = round_div(delta.x, z);
        let dy = round_div(delta.y, z);
        self.center = Point {
            x: clamp_i64(self.center.x - dx, -WORLD_LIMIT, WORLD_LIMIT),
            y: clamp_i64(self.center.y - dy, -WORLD_LIMIT, WORLD_LIMIT),
        };
    }
}

proof fn lemma_transform_in_screen(w: int, c: int, z: int)
    requires
        -WORLD_LIMIT <= w <= WORLD_LIMIT,
        -WORLD_LIMIT <= c <= WORLD_LIMIT,
        MIN_ZOOM <= z <= MAX_ZOOM,
    ensures
        -SCREEN_LIMIT <= transform_coord(w, c, z) <= SCREEN_LIMIT,
{
    assert(-2 * WORLD_LIMIT * MAX_ZOOM <= (w - c) * z <= 2 * WORLD_LIMIT * MAX_ZOOM)
        by (nonlinear_arith)
        requires
            -2 * WORLD_LIMIT <= w - c <= 2 * WORLD_LIMIT,
            0 < z <= MAX_ZOOM,
    ;
}

/// A screen coordinate of magnitude at most `lim` divided by a zoom is at
/// most `lim / MIN_ZOOM` world units, give or take one.
proof fn lemma_inverse_bounded(s: int, lim: int, z: int)
    requires
        -lim <= s <= lim,
        MIN_ZOOM <= z <= MAX_ZOOM,
    ensures
        -(lim + MAX_ZOOM) <= MIN_ZOOM * rounded_quotient(s, z) <= lim + MAX_ZOOM,
{
    let q = rounded_quotient(s, z);
    lemma_rounded_quotient_error(s, z);
    assert(-(lim + MAX_ZOOM) <= MIN_ZOOM * q <= lim + MAX_ZOOM) by (nonlinear_arith)
        requires
            -z < 2 * (z * q - s) <= z,
            -lim <= s <= lim,
            MIN_ZOOM <= z <= MAX_ZOOM,
    ;
}

impl Viewport {
    /// The view after a cursor-anchored zoom step for each of `steps` in turn.
    pub open spec fn zoomed_at_all(self, cursor: Point, steps: Seq<ZoomStep>) -> Viewport
        decreases steps.len(),
    {
        if steps.len() == 0 {
            self
        } else {
            self.zoomed_at(cursor, steps[0]).zoomed_at_all(cursor, steps.drop_first())
        }
    }

    /// No step of `steps` has its center held at the world limit.
    pub open spec fn anchors_all_exactly(self, cursor: Point, steps: Seq<ZoomStep>) -> bool
        decreases steps.len(),
    {
        steps.len() == 0 || (self.anchors_exactly(cursor, steps[0]) && self.zoomed_at(
            cursor,
            steps[0],
        ).anchors_all_exactly(cursor, steps.drop_first()))
    }

    /// Panning by `delta` keeps the center in range without holding it there.
    pub open spec fn pans_exactly(self, delta: Point) -> bool {
        &&& -WORLD_LIMIT <= self.center.x - pan_shift(delta.x as int, self.zoom as int) <= WORLD_LIMIT
        &&& -WORLD_LIMIT <= self.center.y - pan_shift(delta.y as int, self.zoom as int) <= WORLD_LIMIT
    }
}

/// `q` is `n / d` to within half a unit.
pub open spec fn within_half_unit(q: int, n: int, d: int) -> bool {
    -d < 2 * (d * q - n) <= d
}

/// Mapping a world point to the screen and back gives exactly that point.
pub proof fn lemma_inverse_undoes_transform(v: Viewport, p: Point)
    requires
        v.wf(),
        p.in_world(),
    ensures
        -SCREEN_LIMIT <= transform_coord(p.x as int, v.center.x as int, v.zoom as int)
            <= SCREEN_LIMIT,
        -SCREEN_LIMIT <= transform_coord(p.y as int, v.center.y as int, v.zoom as int)
            <= SCREEN_LIMIT,
        inverse_coord(
            transform_coord(p.x as int, v.center.x as int, v.zoom as int),
            v.center.x as int,
            v.zoom as int,
        ) == p.x,
        inverse_coord(
            transform_coord(p.y as int, v.center.y as int, v.zoom as int),
            v.center.y as int,
            v.zoom as int,
        ) == p.y,
{
    lemma_transform_in_screen(p.x as int, v.center.x as int, v.zoom as int);
    lemma_transform_in_screen(p.y as int, v.center.y as int, v.zoom as int);
    lemma_rounded_quotient_exact(p.x - v.center.x, v.zoom as int);
    lemma_rounded_quotient_exact(p.y - v.center.y, v.zoom as int);
}

/// Mapping a screen point to the world and back lands within half a world
/// unit, that is `zoom / 2` screen units, of where it started: the world
/// point, divided back by the zoom, is the screen point to within half a
/// world unit.
pub proof fn lemma_transform_undoes_inverse(v: Viewport, s: Point)
    requires
        v.wf(),
    ensures
        within_half_unit(
            inverse_coord(s.x as int, v.center.x as int, v.zoom as int) - v.center.x,
            s.x as int,
            v.zoom as int,
        ),
        within_half_unit(
            inverse_coord(s.y as int, v.center.y as int, v.zoom as int) - v.center.y,
            s.y as int,
            v.zoom as int,
        ),
        -(v.zoom as int) < 2 * (transform_coord(
            inverse_coord(s.x as int, v.center.x as int, v.zoom as int),
            v.center.x as int,
            v.zoom as int,
        ) - s.x) <= v.zoom,
        -(v.zoom as int) < 2 * (transform_coord(
            inverse_coord(s.y as int, v.center.y as int, v.zoom as int),
            v.center.y as int,
            v.zoom as int,
        ) - s.y) <= v.zoom,
{
    let z = v.zoom as int;
    lemma_rounded_quotient_error(s.x as int, z);
    lemma_rounded_quotient_error(s.y as int, z);
    let qx = rounded_quotient(s.x as int, z);
    let qy = rounded_quotient(s.y as int, z);
    assert((qx + v.center.x - v.center.x) * z == z * qx) by (nonlinear_arith);
    assert((qy + v.center.y - v.center.y) * z == z * qy) by (nonlinear_arith);
}

/// The screen vector between two world points is their world vector times
/// the zoom, so a box's far corner lands exactly where its transformed size
/// says.
pub proof fn lemma_transform_difference(v: Viewport, p: Point, q: Point)
    ensures
        transform_coord(q.x as int, v.center.x as int, v.zoom as int) - transform_coord(
            p.x as int,
            v.center.x as int,
            v.zoom as int,
        ) == scale_extent(q.x - p.x, v.zoom as int),
        transform_coord(q.y as int, v.center.y as int, v.zoom as int) - transform_coord(
            p.y as int,
            v.center.y as int,
            v.zoom as int,
        ) == scale_extent(q.y - p.y, v.zoom as int),
{
    let z = v.zoom as int;
    assert((q.x - v.center.x) * z - (p.x - v.center.x) * z == (q.x - p.x) * z)
        by (nonlinear_arith);
    assert((q.y - v.center.y) * z - (p.y - v.center.y) * z == (q.y - p.y) * z)
        by (nonlinear_arith);
}

/// A screen vector `d` maps to the world vector `d / zoom`, wherever it
/// starts, to within one world unit.
pub proof fn lemma_inverse_difference(v: Viewport, s: Point, d: Point)
    requires
        v.wf(),
    ensures
        -(v.zoom as int) < v.zoom * (inverse_coord(s.x + d.x, v.center.x as int, v.zoom as int)
            - inverse_coord(s.x as int, v.center.x as int, v.zoom as int)) - d.x < v.zoom,
        -(v.zoom as int) < v.zoom * (inverse_coord(s.y + d.y, v.center.y as int, v.zoom as int)
            - inverse_coord(s.y as int, v.center.y as int, v.zoom as int)) - d.y < v.zoom,
{
    let z = v.zoom as int;
    lemma_rounded_quotient_error(s.x as int, z);
    lemma_rounded_quotient_error(s.x + d.x, z);
    lemma_rounded_quotient_error(s.y as int, z);
    lemma_rounded_quotient_error(s.y + d.y, z);
    let a = rounded_quotient(s.x + d.x, z);
    let b = rounded_quotient(s.x as int, z);
    assert(z * (a - b) == z * a - z * b) by (nonlinear_arith);
    let a = rounded_quotient(s.y + d.y, z);
    let b = rounded_quotient(s.y as int, z);
    assert(z * (a - b) == z * a - z * b) by (nonlinear_arith);
}

/// An anchored zoom step keeps the view well formed.
pub proof fn lemma_zoomed_at_wf(v: Viewport, cursor: Point, step: ZoomStep)
    requires
        v.wf(),
    ensures
        v.zoomed_at(cursor, step).wf(),
{
}

/// The world point under the cursor stays under it through an anchored zoom
/// step that does not hold the center at the world limit.
pub proof fn lemma_zoom_at_keeps_cursor(v: Viewport, cursor: Point, step: ZoomStep)
    requires
        v.wf(),
        v.anchors_exactly(cursor, step),
    ensures
        inverse_coord(
            cursor.x as int,
            v.zoomed_at(cursor, step).center.x as int,
            v.zoomed_at(cursor, step).zoom as int,
        ) == inverse_coord(cursor.x as int, v.center.x as int, v.zoom as int),
        inverse_coord(
            cursor.y as int,
            v.zoomed_at(cursor, step).center.y as int,
            v.zoomed_at(cursor, step).zoom as int,
        ) == inverse_coord(cursor.y as int, v.center.y as int, v.zoom as int),
{
}

/// Through any sequence of anchored zoom steps at one screen point, none of
/// which holds the center at the world limit, the world point under that
/// screen point stays the same.
pub proof fn lemma_zoom_steps_keep_cursor(v: Viewport, cursor: Point, steps: Seq<ZoomStep>)
    requires
        v.wf(),
        v.anchors_all_exactly(cursor, steps),
    ensures
        inverse_coord(
            cursor.x as int,
            v.zoomed_at_all(cursor, steps).center.x as int,
            v.zoomed_at_all(cursor, steps).zoom as int,
        ) == inverse_coord(cursor.x as int, v.center.x as int, v.zoom as int),
        inverse_coord(
            cursor.y as int,
            v.zoomed_at_all(cursor, steps).center.y as int,
            v.zoomed_at_all(cursor, steps).zoom as int,
        ) == inverse_coord(cursor.y as int, v.center.y as int, v.zoom as int),
    decreases steps.len(),
{
    if steps.len() > 0 {
        lemma_zoom_at_keeps_cursor(v, cursor, steps[0]);
        lemma_zoomed_at_wf(v, cursor, steps[0]);
        lemma_zoom_steps_keep_cursor(v.zoomed_at(cursor, steps[0]), cursor, steps.drop_first());
    }
}

/// However many zoom steps are taken, in or out, the zoom stays within
/// `[MIN_ZOOM, MAX_ZOOM]`.
pub proof fn lemma_zoom_steps_bounded(v: Viewport, cursor: Point, steps: Seq<ZoomStep>)
    requires
        v.wf(),
    ensures
        v.zoomed_at_all(cursor, steps).wf(),
        MIN_ZOOM <= v.zoomed_at_all(cursor, steps).zoom <= MAX_ZOOM,
    decreases steps.len(),
{
    if steps.len() > 0 {
        lemma_zoomed_at_wf(v, cursor, steps[0]);
        lemma_zoom_steps_bounded(v.zoomed_at(cursor, steps[0]), cursor, steps.drop_first());
    }
}

/// An anchored step from zoom `z0` to `z1` at screen coordinate `p` moves
/// the center by `p / z0 - p / z1` to within one world unit.
proof fn lemma_anchored_shift(p: int, c: int, z0: int, z1: int)
    requires
        MIN_ZOOM <= z0 <= MAX_ZOOM,
        MIN_ZOOM <= z1 <= MAX_ZOOM,
    ensures
        -z0 * z1 < z0 * z1 * (raw_anchored_center(p, c, z0, z1) - c) - p * (z1 - z0) < z0 * z1,
{
    let q0 = rounded_quotient(p, z0);
    let q1 = rounded_quotient(p, z1);
    lemma_rounded_quotient_error(p, z0);
    lemma_rounded_quotient_error(p, z1);
    assert(raw_anchored_center(p, c, z0, z1) - c == q0 - q1);
    assert(-z0 * z1 < z0 * z1 * (q0 - q1) - p * (z1 - z0) < z0 * z1) by (nonlinear_arith)
        requires
            -z0 < 2 * (z0 * q0 - p) <= z0,
            -z1 < 2 * (z1 * q1 - p) <= z1,
            z0 > 0,
            z1 > 0,
    ;
}

/// An anchored zoom step that does not hold the center at the world limit
/// moves the center by `cursor / old zoom - cursor / new zoom` to within one
/// world unit, a millionth of a pixel.
pub proof fn lemma_zoom_at_center(v: Viewport, cursor: Point, step: ZoomStep)
    requires
        v.wf(),
        v.anchors_exactly(cursor, step),
    ensures
        ({
            let z0 = v.zoom as int;
            let z1 = v.zoomed_at(cursor, step).zoom as int;
            let c1 = v.zoomed_at(cursor, step).center;
            &&& -z0 * z1 < z0 * z1 * (c1.x - v.center.x) - cursor.x * (z1 - z0) < z0 * z1
            &&& -z0 * z1 < z0 * z1 * (c1.y - v.center.y) - cursor.y * (z1 - z0) < z0 * z1
        }),
{
    let z1 = stepped_zoom(v.zoom as int, step);
    lemma_anchored_shift(cursor.x as int, v.center.x as int, v.zoom as int, z1);
    lemma_anchored_shift(cursor.y as int, v.center.y as int, v.zoom as int, z1);
}

/// Panning by one screen displacement `delta` at two zoom levels moves the
/// center by `delta / zoom` at each, to within half a world unit (half a
/// millionth of a pixel): the displacement is inversely proportional to the
/// zoom.
pub proof fn lemma_pan_inverse_to_zoom(v1: Viewport, v2: Viewport, delta: Point)
    requires
        v1.wf(),
        v2.wf(),
        v1.pans_exactly(delta),
        v2.pans_exactly(delta),
    ensures
        v1.center.x - v1.panned(delta).center.x == pan_shift(delta.x as int, v1.zoom as int),
        v1.center.y - v1.panned(delta).center.y == pan_shift(delta.y as int, v1.zoom as int),
        v2.center.x - v2.panned(delta).center.x == pan_shift(delta.x as int, v2.zoom as int),
        v2.center.y - v2.panned(delta).center.y == pan_shift(delta.y as int, v2.zoom as int),
        within_half_unit(v1.center.x - v1.panned(delta).center.x, delta.x as int, v1.zoom as int),
        within_half_unit(v1.center.y - v1.panned(delta).center.y, delta.y as int, v1.zoom as int),
        within_half_unit(v2.center.x - v2.panned(delta).center.x, delta.x as int, v2.zoom as int),
        within_half_unit(v2.center.y - v2.panned(delta).center.y, delta.y as int, v2.zoom as int),
{
    lemma_rounded_quotient_error(delta.x as int, v1.zoom as int);
    lemma_rounded_quotient_error(delta.y as int, v1.zoom as int);
    lemma_rounded_quotient_error(delta.x as int, v2.zoom as int);
    lemma_rounded_quotient_error(delta.y as int, v2.zoom as int);
}

} // verus!
