//! The scene engine: the boxes, the view, and the pointer interaction that
//! pans the view, zooms it and drags boxes.
use vstd::prelude::*;
use crate::cascade::{cascaded, is_cascade, push_overlapping};
use crate::geometry::{
    clamp, clamp_i64, floor_div, round_div, rounded_quotient, world_point, Point, Size, SCREEN_LIMIT,
    WORLD_LIMIT,
};
use crate::textbox::DraggableTextBox;
use crate::viewport::{
    inverse_coord, scale_extent, transform_coord, Viewport, ZoomStep, INVERSE_LIMIT, MIN_ZOOM,
};

verus! {

/// What the pointer is doing.
#[derive(Clone, Copy, Debug, PartialEq, Eq, Structural)]
pub enum Interaction {
    Idle,
    /// Moving the view; `last` is the previous screen position.
    Panning { last: Point },
    /// Moving a box; `grab_offset` is the world vector from the box's
    /// corner to the point grabbed, held for the whole drag.
    Dragging { box_id: usize, grab_offset: Point },
}

/// The canvas: its boxes, its view and the current interaction.
pub struct ViewportApp {
    pub textboxes: Vec<DraggableTextBox>,
    pub viewport: Viewport,
    pub interaction: Interaction,
    /// Identity for the next box added; above every identity in use.
    pub next_id: usize,
}

/// No two boxes share an identity.
pub open spec fn ids_unique(boxes: Seq<DraggableTextBox>) -> bool {
    forall|i: int, j: int|
        0 <= i < boxes.len() && 0 <= j < boxes.len() && i != j ==> boxes[i].id != boxes[j].id
}

/// Some box has identity `id`.
pub open spec fn holds_id(boxes: Seq<DraggableTextBox>, id: usize) -> bool {
    exists|i: int| 0 <= i < boxes.len() && boxes[i].id == id
}

/// Where the box with identity `id` is stored.
pub open spec fn index_of_id(boxes: Seq<DraggableTextBox>, id: usize) -> int {
    choose|i: int| 0 <= i < boxes.len() && boxes[i].id == id
}

/// `boxes` with box `i` put at `p`.
pub open spec fn placed(boxes: Seq<DraggableTextBox>, i: int, p: Point) -> Seq<
    DraggableTextBox,
> {
    boxes.update(i, DraggableTextBox { position: p, ..boxes[i] })
}

/// The world vector from `from` to `to`.
pub open spec fn displacement(from: Point, to: Point) -> Point {
    Point { x: (to.x - from.x) as i64, y: (to.y - from.y) as i64 }
}

/// The grab offset for pressing screen point `s` on a box at `corner`.
pub open spec fn grab_offset_at(v: Viewport, s: Point, corner: Point) -> Point {
    Point {
        x: (inverse_coord(s.x as int, v.center.x as int, v.zoom as int) - corner.x) as i64,
        y: (inverse_coord(s.y as int, v.center.y as int, v.zoom as int) - corner.y) as i64,
    }
}

/// Where a dragged box goes when the pointer is at screen point `s`.
pub open spec fn drag_target(v: Viewport, s: Point, grab_offset: Point) -> Point {
    world_point(
        inverse_coord(s.x as int, v.center.x as int, v.zoom as int) - grab_offset.x,
        inverse_coord(s.y as int, v.center.y as int, v.zoom as int) - grab_offset.y,
    )
}

/// Largest zoom that fitting the view to the boxes picks, in thousandths.
pub const FIT_MAX_ZOOM: u32 = 3000;

/// Share of the screen, in thousandths, that a lone box fills once fitted.
pub const SINGLE_FILL: i64 = 600;

/// Margin, in thousandths of the boxes' extent, left on each side when
/// fitting several boxes.
pub const FIT_MARGIN: i64 = 100;

/// The smallest rectangle around `boxes`, as (left, right, top, bottom).
pub open spec fn extent(boxes: Seq<DraggableTextBox>) -> (int, int, int, int)
    decreases boxes.len(),
{
    if boxes.len() == 0 {
        (0, 0, 0, 0)
    } else {
        let b = boxes.last();
        let (l1, r1, t1, b1) = (
            b.position.x as int,
            b.position.x + b.size.width,
            b.position.y as int,
            b.position.y + b.size.height,
        );
        if boxes.len() == 1 {
            (l1, r1, t1, b1)
        } else {
            let (l, r, t, bt) = extent(boxes.drop_last());
            (
                if l1 < l { l1 } else { l },
                if r1 > r { r1 } else { r },
                if t1 < t { t1 } else { t },
                if b1 > bt { b1 } else { bt },
            )
        }
    }
}

/// The zoom, before clamping, at which a span of `span` world units fits a
/// screen extent of `screen` screen units (a span maps onto `span * zoom`
/// screen units): a lone box fills `SINGLE_FILL` of it, several boxes with
/// their margins fill all of it. A span of zero fits at any zoom.
pub open spec fn fit_axis(screen: int, span: int, single: bool) -> int {
    if span == 0 {
        FIT_MAX_ZOOM as int
    } else if single {
        SINGLE_FILL * screen / (1000 * span)
    } else {
        1000 * screen / ((1000 + 2 * FIT_MARGIN) * span)
    }
}

/// The zoom that fits the view to `boxes` on a screen of size `screen`.
pub open spec fn fit_zoom(boxes: Seq<DraggableTextBox>, screen: Size) -> int {
    let (l, r, t, b) = extent(boxes);
    let zx = fit_axis(screen.width as int, r - l, boxes.len() == 1);
    let zy = fit_axis(screen.height as int, b - t, boxes.len() == 1);
    clamp(if zx < zy { zx } else { zy }, MIN_ZOOM as int, FIT_MAX_ZOOM as int)
}

/// The view that shows all of `boxes` on a screen of size `screen`, their
/// middle at the middle of the screen; with no boxes, the initial view.
pub open spec fn fitted_view(boxes: Seq<DraggableTextBox>, screen: Size) -> Viewport {
    if boxes.len() == 0 {
        Viewport::new_spec()
    } else {
        let z = fit_zoom(boxes, screen);
        let (l, r, t, b) = extent(boxes);
        Viewport {
            zoom: z as u32,
            center: world_point(
                rounded_quotient((l + r) * z - screen.width, 2 * z),
                rounded_quotient((t + b) * z - screen.height, 2 * z),
            ),
        }
    }
}

/// What the renderer draws for box `b` under view `v`: its identity, its
/// screen corner and its screen size.
pub open spec fn rendered(v: Viewport, b: DraggableTextBox) -> (usize, Point, Size) {
    (
        b.id,
        Point {
            x: transform_coord(b.position.x as int, v.center.x as int, v.zoom as int) as i64,
            y: transform_coord(b.position.y as int, v.center.y as int, v.zoom as int) as i64,
        },
        Size {
            width: scale_extent(b.size.width as int, v.zoom as int) as i64,
            height: scale_extent(b.size.height as int, v.zoom as int) as i64,
        },
    )
}

impl ViewportApp {
    /// What every method keeps: a well-formed view, boxes within the world
    /// limits with distinct identities below `next_id`, and interaction
    /// data within the ranges the arithmetic is proved for.
    pub open spec fn wf(&self) -> bool {
        &&& self.viewport.wf()
        &&& forall|i: int| 0 <= i < self.textboxes.len() ==> (#[trigger] self.textboxes[i]).wf()
        &&& forall|i: int|
            0 <= i < self.textboxes.len() ==> (#[trigger] self.textboxes[i]).id < self.next_id
        &&& ids_unique(self.textboxes@)
        &&& match self.interaction {
            Interaction::Idle => true,
            Interaction::Panning { last } => last.in_screen(),
            Interaction::Dragging { box_id, grab_offset } => grab_offset.within(
                2 * INVERSE_LIMIT,
            ),
        }
    }

    /// Two boxes, at `(100, 100)` and `(400, 300)` pixels, each 200 by 100
    /// pixels, under a view at zoom 1 centered on the origin.
    pub fn new() -> (app: Self)
        ensures
            app.wf(),
            app.textboxes@ == seq![
                DraggableTextBox {
                    id: 0,
                    position: Point { x: 100_000_000, y: 100_000_000 },
                    size: Size { width: 200_000_000, height: 100_000_000 },
                },
                DraggableTextBox {
                    id: 1,
                    position: Point { x: 400_000_000, y: 300_000_000 },
                    size: Size { width: 200_000_000, height: 100_000_000 },
                },
            ],
            app.viewport == Viewport::new_spec(),
            app.interaction == Interaction::Idle,
            app.next_id == 2,
    {
        let textbox1 = DraggableTextBox::new(
            Point { x: 100_000_000, y: 100_000_000 },
            Size { width: 200_000_000, height: 100_000_000 },
            0,
        );
        let textbox2 = DraggableTextBox::new(
            Point { x: 400_000_000, y: 300_000_000 },
            Size { width: 200_000_000, height: 100_000_000 },
            1,
        );
        let app = ViewportApp {
            textboxes: vec![textbox1, textbox2],
            viewport: Viewport::new(),
            interaction: Interaction::Idle,
            next_id: 2,
        };
        assert(app.textboxes@ =~= seq![textbox1, textbox2]);
        app
    }

    /// Where the box with identity `id` is stored, if there is one.
    pub fn index_of(&self, id: usize) -> (r: Option<usize>)
        requires
            ids_unique(self.textboxes@),
        ensures
            r == (if holds_id(self.textboxes@, id) {
                Some(index_of_id(self.textboxes@, id) as usize)
            } else {
                None::<usize>
            }),
    {
        let mut i: usize = 0;
        while i < self.textboxes.len()
            invariant
                i <= self.textboxes.len(),
                ids_unique(self.textboxes@),
                forall|k: int| 0 <= k < i ==> self.textboxes[k].id != id,
            decreases self.textboxes.len() - i,
        {
            if self.textboxes[i].id == id {
                proof {
                    let c = index_of_id(self.textboxes@, id);
                    assert(0 <= c < self.textboxes.len() && self.textboxes[c].id == id);
                    if c != i as int {
                        assert(self.textboxes@[c].id != self.textboxes@[i as int].id);
                    }
                }
                return Some(i);
            }
            i += 1;
        }
        None
    }

    /// Adds a box at world `position` and returns its identity. Position
    /// and size saturate at the world limits; a negative extent becomes 0.
    /// Returns `None`, and changes nothing, once identities run out.
    pub fn add_box(&mut self, position: Point, size: Size) -> (r: Option<usize>)
        requires
            old(self).wf(),
        ensures
            final(self).wf(),
            final(self).viewport == old(self).viewport,
            final(self).interaction == old(self).interaction,
            old(self).next_id == usize::MAX ==> r is None && *final(self) == *old(self),
            old(self).next_id < usize::MAX ==> {
                &&& r == Some(old(self).next_id)
                &&& final(self).next_id == old(self).next_id + 1
                &&& final(self).textboxes@ == old(self).textboxes@.push(
                    DraggableTextBox {
                        id: old(self).next_id,
                        position: world_point(position.x as int, position.y as int),
                        size: Size {
                            width: clamp(size.width as int, 0, WORLD_LIMIT as int) as i64,
                            height: clamp(size.height as int, 0, WORLD_LIMIT as int) as i64,
                        },
                    },
                )
            },
    {
        if self.next_id == usize::MAX {
            return None;
        }
        let id = self.next_id;
        let b = DraggableTextBox::new(
            Point {
                x: clamp_i64(position.x, -WORLD_LIMIT, WORLD_LIMIT),
                y: clamp_i64(position.y, -WORLD_LIMIT, WORLD_LIMIT),
            },
            Size {
                width: clamp_i64(size.width, 0, WORLD_LIMIT),
                height: clamp_i64(size.height, 0, WORLD_LIMIT),
            },
            id,
        );
        self.textboxes.push(b);
        self.next_id = id + 1;
        Some(id)
    }

    /// Removes the box with identity `id`; without such a box, nothing
    /// changes.
    pub fn remove_box(&mut self, id: usize)
        requires
            old(self).wf(),
        ensures
            final(self).wf(),
            final(self).viewport == old(self).viewport,
            final(self).interaction == old(self).interaction,
            final(self).next_id == old(self).next_id,
            final(self).textboxes@ == (if holds_id(old(self).textboxes@, id) {
                old(self).textboxes@.remove(index_of_id(old(self).textboxes@, id))
            } else {
                old(self).textboxes@
            }),
    {
        match self.index_of(id) {
            Some(i) => {
                let ghost before = self.textboxes@;
                self.textboxes.remove(i);
                assert forall|a: int, b: int|
                    0 <= a < self.textboxes.len() && 0 <= b < self.textboxes.len() && a != b
                    implies self.textboxes[a].id != self.textboxes[b].id by {
                    let a0 = if a < i { a } else { a + 1 };
                    let b0 = if b < i { b } else { b + 1 };
                    assert(self.textboxes[a] == before[a0]);
                    assert(self.textboxes[b] == before[b0]);
                }
                assert forall|k: int| 0 <= k < self.textboxes.len() implies (
                #[trigger] self.textboxes[k]).wf() && self.textboxes[k].id < self.next_id by {
                    let k0 = if k < i { k } else { k + 1 };
                    assert(self.textboxes[k] == before[k0]);
                }
            },
            None => {},
        }
    }

    /// Runs the push cascade from box `moving_idx`, which has just moved by
    /// `delta`; returns the boxes reached, in order. Without such a box,
    /// nothing changes.
    pub fn handle_collisions(&mut self, moving_idx: usize, delta: Point) -> (order: Vec<usize>)
        requires
            old(self).wf(),
            delta.within(2 * WORLD_LIMIT),
        ensures
            final(self).wf(),
            order@.len() <= old(self).textboxes.len(),
            final(self).viewport == old(self).viewport,
            final(self).interaction == old(self).interaction,
            final(self).next_id == old(self).next_id,
            moving_idx < old(self).textboxes.len() ==> {
                &&& is_cascade(old(self).textboxes@, moving_idx as int, delta, order@)
                &&& final(self).textboxes@ == cascaded(
                    old(self).textboxes@,
                    moving_idx as int,
                    delta,
                    order@,
                )
            },
            moving_idx >= old(self).textboxes.len() ==> final(self).textboxes@ == old(
                self,
            ).textboxes@ && order@.len() == 0,
    {
        if moving_idx >= self.textboxes.len() {
            return Vec::new();
        }
        let ghost before = self.textboxes@;
        let order = push_overlapping(&mut self.textboxes, moving_idx, delta);
        assert forall|k: int| 0 <= k < self.textboxes.len() implies (#[trigger] self.textboxes[k]).wf()
            && self.textboxes[k].id == before[k].id by {
            assert(self.textboxes@[k] == cascaded(before, moving_idx as int, delta, order@)[k]);
        }
        assert forall|a: int, b: int|
            0 <= a < self.textboxes.len() && 0 <= b < self.textboxes.len() && a != b
            implies self.textboxes[a].id != self.textboxes[b].id by {
            assert(self.textboxes[a].id == before[a].id);
            assert(self.textboxes[b].id == before[b].id);
        }
        order
    }

    /// Puts box `index` at world `new_position`, held within the world
    /// limit, and pushes what it now overlaps by the same displacement.
    /// Returns the boxes the cascade reached, the moved box first. Without
    /// such a box, nothing changes.
    pub fn update_textbox_position(&mut self, index: usize, new_position: Point) -> (order: Vec<
        usize,
    >)
        requires
            old(self).wf(),
        ensures
            final(self).wf(),
            order@.len() <= old(self).textboxes.len(),
            final(self).viewport == old(self).viewport,
            final(self).interaction == old(self).interaction,
            final(self).next_id == old(self).next_id,
            index < old(self).textboxes.len() ==> {
                let p = world_point(new_position.x as int, new_position.y as int);
                let placed_boxes = placed(old(self).textboxes@, index as int, p);
                let delta = displacement(old(self).textboxes[index as int].position, p);
                &&& is_cascade(placed_boxes, index as int, delta, order@)
                &&& final(self).textboxes@ == cascaded(placed_boxes, index as int, delta, order@)
            },
            index >= old(self).textboxes.len() ==> final(self).textboxes@ == old(
                self,
            ).textboxes@ && order@.len() == 0,
    {
        if index >= self.textboxes.len() {
            return Vec::new();
        }
        let mut b = self.textboxes[index];
        let p = Point {
            x: clamp_i64(new_position.x, -WORLD_LIMIT, WORLD_LIMIT),
            y: clamp_i64(new_position.y, -WORLD_LIMIT, WORLD_LIMIT),
        };
        let delta = Point { x: p.x - b.position.x, y: p.y - b.position.y };
        b.position = p;
        self.textboxes.set(index, b);
        assert(self.textboxes@ == placed(old(self).textboxes@, index as int, p));
        assert forall|k: int| 0 <= k < self.textboxes.len() implies (#[trigger] self.textboxes[k]).wf()
            && self.textboxes[k].id < self.next_id by {
            assert(self.textboxes[k].id == old(self).textboxes[k].id);
        }
        assert(ids_unique(self.textboxes@)) by {
            assert forall|a: int, c: int|
                0 <= a < self.textboxes.len() && 0 <= c < self.textboxes.len() && a != c
                implies self.textboxes[a].id != self.textboxes[c].id by {
                assert(self.textboxes[a].id == old(self).textboxes[a].id);
                assert(self.textboxes[c].id == old(self).textboxes[c].id);
            }
        }
        self.handle_collisions(index, delta)
    }

    /// For each box, in storage order, what the renderer draws.
    pub fn render_boxes(&self) -> (r: Vec<(usize, Point, Size)>)
        requires
            self.wf(),
        ensures
            r@.len() == self.textboxes.len(),
            forall|i: int|
                0 <= i < r@.len() ==> r@[i] == rendered(self.viewport, self.textboxes[i]),
    {
        let mut r: Vec<(usize, Point, Size)> = Vec::new();
        let mut i: usize = 0;
        while i < self.textboxes.len()
            invariant
                self.wf(),
                i <= self.textboxes.len(),
                r@.len() == i,
                forall|k: int| 0 <= k < i ==> r@[k] == rendered(self.viewport, self.textboxes[k]),
            decreases self.textboxes.len() - i,
        {
            let b = self.textboxes[i];
            assert(b.wf());
            let p = self.viewport.transform_point(b.position);
            let sz = self.viewport.transform_size(b.size);
            r.push((b.id, p, sz));
            i += 1;
        }
        r
    }

    /// Fits the view to the boxes on a screen of size `screen`.
    pub fn reset_view(&mut self, screen: Size)
        requires
            old(self).wf(),
            0 <= screen.width <= SCREEN_LIMIT,
            0 <= screen.height <= SCREEN_LIMIT,
        ensures
            final(self).wf(),
            final(self).textboxes@ == old(self).textboxes@,
            final(self).interaction == old(self).interaction,
            final(self).next_id == old(self).next_id,
            final(self).viewport == fitted_view(old(self).textboxes@, screen),
    {
        let n = self.textboxes.len();
        if n == 0 {
            self.viewport = Viewport::new();
            return;
        }
        let first = self.textboxes[0];
        assert(first.wf());
        let mut l = first.position.x;
        let mut r = first.position.x + first.size.width;
        let mut t = first.position.y;
        let mut b = first.position.y + first.size.height;
        assert(self.textboxes@.subrange(0, 1).drop_last() =~= Seq::<DraggableTextBox>::empty());
        let mut i: usize = 1;
        while i < n
            invariant
                n == self.textboxes.len(),
                1 <= i <= n,
                forall|k: int| 0 <= k < n ==> (#[trigger] self.textboxes[k]).wf(),
                (l as int, r as int, t as int, b as int) == extent(
                    self.textboxes@.subrange(0, i as int),
                ),
                -WORLD_LIMIT <= l <= r <= 2 * WORLD_LIMIT,
                l <= WORLD_LIMIT,
                -WORLD_LIMIT <= t <= b <= 2 * WORLD_LIMIT,
                t <= WORLD_LIMIT,
            decreases n - i,
        {
            let bi = self.textboxes[i];
            assert(bi.wf());
            if bi.position.x < l {
                l = bi.position.x;
            }
            if bi.position.x + bi.size.width > r {
                r = bi.position.x + bi.size.width;
            }
            if bi.position.y < t {
                t = bi.position.y;
            }
            if bi.position.y + bi.size.height > b {
                b = bi.position.y + bi.size.height;
            }
            assert(self.textboxes@.subrange(0, i + 1).drop_last() =~= self.textboxes@.subrange(
                0,
                i as int,
            ));
            i += 1;
        }
        assert(self.textboxes@.subrange(0, n as int) =~= self.textboxes@);
        let single = n == 1;
        let zx = fit_axis_exec(screen.width, r - l, single);
        let zy = fit_axis_exec(screen.height, b - t, single);
        let zmin = if zx < zy {
            zx
        } else {
            zy
        };
        let z = if zmin < MIN_ZOOM as i128 {
            MIN_ZOOM as i64
        } else if zmin > FIT_MAX_ZOOM as i128 {
            FIT_MAX_ZOOM as i64
        } else {
            zmin as i64
        };
        assert((l + r) * z <= 0x1000_0000_0000_0000 && (l + r) * z >= -0x1000_0000_0000_0000)
            by (nonlinear_arith)
            requires
                -2 * WORLD_LIMIT <= l + r <= 4 * WORLD_LIMIT,
                0 < z <= FIT_MAX_ZOOM,
        ;
        assert((t + b) * z <= 0x1000_0000_0000_0000 && (t + b) * z >= -0x1000_0000_0000_0000)
            by (nonlinear_arith)
            requires
                -2 * WORLD_LIMIT <= t + b <= 4 * WORLD_LIMIT,
                0 < z <= FIT_MAX_ZOOM,
        ;
        let cx = round_div((l + r) * z - screen.width, 2 * z);
        let cy = round_div((t + b) * z - screen.height, 2 * z);
        self.viewport = Viewport {
            zoom: z as u32,
            center: Point {
                x: clamp_i64(cx, -WORLD_LIMIT, WORLD_LIMIT),
                y: clamp_i64(cy, -WORLD_LIMIT, WORLD_LIMIT),
            },
        };
    }

    /// A pointer press at screen point `screen_pos`, on the box with
    /// identity `hit` if the renderer found one there. From idle, a press on
    /// a box starts dragging it and one on the empty canvas starts panning;
    /// a press on an unknown box, or during a pan or drag, changes nothing.
    pub fn on_pointer_down(&mut self, screen_pos: Point, hit: Option<usize>)
        requires
            old(self).wf(),
            screen_pos.in_screen(),
        ensures
            final(self).wf(),
            final(self).textboxes@ == old(self).textboxes@,
            final(self).viewport == old(self).viewport,
            final(self).next_id == old(self).next_id,
            final(self).interaction == (if !(old(self).interaction is Idle) {
                old(self).interaction
            } else {
                match hit {
                    None => Interaction::Panning { last: screen_pos },
                    Some(id) => if holds_id(old(self).textboxes@, id) {
                        Interaction::Dragging {
                            box_id: id,
                            grab_offset: grab_offset_at(
                                old(self).viewport,
                                screen_pos,
                                old(self).textboxes[index_of_id(old(self).textboxes@, id)].position,
                            ),
                        }
                    } else {
                        old(self).interaction
                    },
                }
            }),
    {
        if let Interaction::Idle = self.interaction {
            match hit {
                None => {
                    self.interaction = Interaction::Panning { last: screen_pos };
                },
                Some(id) => {
                    if let Some(i) = self.index_of(id) {
                        let w = self.viewport.inverse_transform_point(screen_pos);
                        let corner = self.textboxes[i].position;
                        self.interaction = Interaction::Dragging {
                            box_id: id,
                            grab_offset: Point { x: w.x - corner.x, y: w.y - corner.y },
                        };
                    }
                },
            }
        }
    }

    /// A pointer move to screen point `screen_pos`. While dragging, the box
    /// goes to the world point under the pointer less the grab offset and
    /// pushes what it overlaps; the boxes the cascade reached are returned.
    /// While panning, the view moves with the pointer. Otherwise, and when
    /// the dragged box is gone, nothing changes.
    pub fn on_pointer_move(&mut self, screen_pos: Point) -> (order: Vec<usize>)
        requires
            old(self).wf(),
            screen_pos.in_screen(),
        ensures
            final(self).wf(),
            order@.len() <= old(self).textboxes.len(),
            final(self).next_id == old(self).next_id,
            match old(self).interaction {
                Interaction::Idle => {
                    &&& final(self).textboxes@ == old(self).textboxes@
                    &&& final(self).viewport == old(self).viewport
                    &&& final(self).interaction == old(self).interaction
                    &&& order@.len() == 0
                },
                Interaction::Panning { last } => {
                    &&& final(self).textboxes@ == old(self).textboxes@
                    &&& final(self).viewport == old(self).viewport.panned(
                        displacement(last, screen_pos),
                    )
                    &&& final(self).interaction == Interaction::Panning { last: screen_pos }
                    &&& order@.len() == 0
                },
                Interaction::Dragging { box_id, grab_offset } => {
                    &&& final(self).viewport == old(self).viewport
                    &&& final(self).interaction == old(self).interaction
                    &&& if holds_id(old(self).textboxes@, box_id) {
                        let i = index_of_id(old(self).textboxes@, box_id);
                        let p = drag_target(old(self).viewport, screen_pos, grab_offset);
                        let placed_boxes = placed(old(self).textboxes@, i, p);
                        let delta = displacement(old(self).textboxes[i].position, p);
                        &&& is_cascade(placed_boxes, i, delta, order@)
                        &&& final(self).textboxes@ == cascaded(placed_boxes, i, delta, order@)
                    } else {
                        final(self).textboxes@ == old(self).textboxes@ && order@.len() == 0
                    }
                },
            },
    {
        match self.interaction {
            Interaction::Idle => Vec::new(),
            Interaction::Panning { last } => {
                let delta = Point { x: screen_pos.x - last.x, y: screen_pos.y - last.y };
                self.viewport.pan_by(delta);
                self.interaction = Interaction::Panning { last: screen_pos };
                Vec::new()
            },
            Interaction::Dragging { box_id, grab_offset } => {
                match self.index_of(box_id) {
                    Some(i) => {
                        let w = self.viewport.inverse_transform_point(screen_pos);
                        let target = Point { x: w.x - grab_offset.x, y: w.y - grab_offset.y };
                        self.update_textbox_position(i, target)
                    },
                    None => Vec::new(),
                }
            },
        }
    }

    /// A pointer release: any pan or drag ends, with what it moved left in
    /// place.
    pub fn on_pointer_up(&mut self)
        requires
            old(self).wf(),
        ensures
            final(self).wf(),
            final(self).textboxes@ == old(self).textboxes@,
            final(self).viewport == old(self).viewport,
            final(self).next_id == old(self).next_id,
            final(self).interaction == Interaction::Idle,
    {
        self.interaction = Interaction::Idle;
    }

    /// A scroll at screen point `screen_pos`: one zoom step, anchored at
    /// the pointer, whatever the interaction.
    pub fn on_scroll(&mut self, screen_pos: Point, step: ZoomStep)
        requires
            old(self).wf(),
            screen_pos.in_screen(),
        ensures
            final(self).wf(),
            final(self).textboxes@ == old(self).textboxes@,
            final(self).viewport == old(self).viewport.zoomed_at(screen_pos, step),
            final(self).interaction == old(self).interaction,
            final(self).next_id == old(self).next_id,
    {
        self.viewport.zoom_at(screen_pos, step);
    }
}

/// `fit_axis` on machine integers.
fn fit_axis_exec(screen: i64, span: i64, single: bool) -> (z: i128)
    requires
        0 <= screen <= SCREEN_LIMIT,
        0 <= span <= 3 * WORLD_LIMIT,
    ensures
        z == fit_axis(screen as int, span as int, single),
        z >= 0,
{
    if span == 0 {
        FIT_MAX_ZOOM as i128
    } else if single {
        floor_div(SINGLE_FILL as i128 * screen as i128, 1000 * span as i128)
    } else {
        let span_with_margins = (1000 + 2 * FIT_MARGIN as i128) * span as i128;
        assert(0 < (1000 + 2 * FIT_MARGIN) * span <= 1200 * 3 * WORLD_LIMIT) by (nonlinear_arith)
            requires
                0 < span <= 3 * WORLD_LIMIT,
                FIT_MARGIN == 100,
        ;
        floor_div(1000 * screen as i128, span_with_margins)
    }
}

} // verus!
