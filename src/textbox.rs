//! The draggable note box and the overlap test between two boxes.
use vstd::prelude::*;
use crate::geometry::{Bounds, Point, Size};

verus! {

/// A box on the canvas. Its text belongs to whoever renders it; the box
/// holds only what the view and the drag logic read.
#[derive(Clone, Copy, Debug, PartialEq, Eq, Structural)]
pub struct DraggableTextBox {
    /// Stable identity, independent of where the box is stored.
    pub id: usize,
    /// World position of the top-left corner.
    pub position: Point,
    /// World extent.
    pub size: Size,
}

impl DraggableTextBox {
    /// Position and size lie within the world limits.
    pub open spec fn wf(self) -> bool {
        self.position.in_world() && self.size.in_world()
    }

    /// The rectangle the box covers.
    pub open spec fn rect(self) -> Bounds {
        Bounds { origin: self.position, size: self.size }
    }

    pub fn new(position: Point, size: Size, id: usize) -> (b: Self)
        ensures
            b.id == id,
            b.position == position,
            b.size == size,
    {
        DraggableTextBox { id, position, size }
    }

    pub fn bounds(&self) -> (r: Bounds)
        ensures
            r == self.rect(),
    {
        Bounds { origin: self.position, size: self.size }
    }

    /// Each box starts strictly before the other ends, on both axes: boxes
    /// that only touch along an edge or at a corner do not overlap.
    pub fn overlaps(&self, other: &DraggableTextBox) -> (r: bool)
        requires
            self.wf(),
            other.wf(),
        ensures
            r == self.rect().overlap(other.rect()),
    {
        let b1 = self.bounds();
        let b2 = other.bounds();
        b1.origin.x < b2.origin.x + b2.size.width && b1.origin.x + b1.size.width > b2.origin.x
            && b1.origin.y < b2.origin.y + b2.size.height && b1.origin.y + b1.size.height
            > b2.origin.y
    }
}

/// Rectangles that meet exactly along an edge, side by side or one above the
/// other, do not overlap.
pub proof fn lemma_touching_do_not_overlap(a: Bounds, b: Bounds)
    requires
        a.right() == b.left() || a.bottom() == b.top(),
    ensures
        !a.overlap(b),
        !b.overlap(a),
{
}

} // verus!
