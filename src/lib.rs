//! A canvas of rectangular note boxes under a pannable, zoomable view.
//!
//! Coordinates are fixed-point integers. World space is where boxes live, in
//! millionths of a pixel; screen space is where pointer events arrive, in
//! billionths of a pixel. The zoom factor is kept in thousandths, so mapping
//! world onto screen multiplies by the zoom exactly, and mapping back divides
//! and rounds to the nearest world unit.
use vstd::prelude::*;

pub mod geometry;
pub mod viewport;
pub mod textbox;
pub mod cascade;
pub mod scene;

pub use geometry::{Bounds, Point, Size};
pub use scene::{Interaction, ViewportApp};
pub use textbox::DraggableTextBox;
pub use viewport::{Viewport, ZoomStep};

verus! {

} // verus!
