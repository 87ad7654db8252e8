//! What a renderer needs to draw an entity.

use vstd::prelude::*;
use crate::fixed::Fixed;
use crate::transform::{Transform, Vec2};

verus! {

/// An axis-aligned rectangle in an entity's local frame: a corner and the
/// extent from it.
#[derive(Clone, Copy, Debug, PartialEq, Eq, Structural)]
pub struct Rect {
    pub x: Fixed,
    pub y: Fixed,
    pub width: Fixed,
    pub height: Fixed,
}

/// A primitive in an entity's local frame, with the transform that places
/// the frame on the screen.
#[derive(Clone, Copy, Debug, PartialEq, Eq)]
pub enum Shape {
    /// The ellipse inscribed in `bounds`.
    Ellipse { bounds: Rect, transform: Transform },
    /// The triangle with the given corners.
    Triangle { corners: [Vec2; 3], transform: Transform },
}

} // verus!
