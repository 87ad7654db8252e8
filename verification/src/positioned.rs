//! Where an entity stands on the screen.
//!
//! An entity does not store a position. It stores the transform that places
//! its local frame in normalized coordinates, and names one point of that
//! frame as its anchor; its position in pixels is derived from the two.

use vstd::prelude::*;
use crate::fixed::{Fixed, saturate, SCALE};
use crate::transform::{Transform, Vec2};

verus! {

/// Side of the square view, in pixels.
pub const VIEW_SIZE: i32 = 512;

/// The pixel coordinate of the normalized coordinate `d`:
/// `512 - (512 - d * 512) / 2`.
pub open spec fn spec_to_pixels(d: Fixed) -> Fixed {
    Fixed::from_int(VIEW_SIZE).sub(
        Fixed::from_int(VIEW_SIZE).sub(d.mul(Fixed::from_int(VIEW_SIZE))).half(),
    )
}

/// Maps a normalized coordinate to pixels.
#[verifier::when_used_as_spec(spec_to_pixels)]
pub fn to_pixels(d: Fixed) -> (p: Fixed)
    ensures
        p == spec_to_pixels(d),
{
    let size = Fixed::from_int(VIEW_SIZE);
    size.sub(size.sub(d.mul(size)).half())
}

/// The position in pixels of the local point `anchor` under `transform`:
/// the transform is applied to the anchor with its `y` negated, since `y`
/// points down in the local frame and up in normalized coordinates, and each
/// coordinate of the image is mapped to pixels.
pub open spec fn spec_world_position(anchor: Vec2, transform: Transform) -> Vec2 {
    let d = transform.apply(Vec2 { x: anchor.x, y: anchor.y.neg() });
    Vec2 { x: spec_to_pixels(d.x), y: spec_to_pixels(d.y) }
}

/// Computes the position in pixels of `anchor` under `transform`.
#[verifier::when_used_as_spec(spec_world_position)]
pub fn world_position(anchor: Vec2, transform: Transform) -> (p: Vec2)
    ensures
        p == spec_world_position(anchor, transform),
{
    let d = transform.apply(Vec2 { x: anchor.x, y: anchor.y.neg() });
    Vec2 { x: to_pixels(d.x), y: to_pixels(d.y) }
}

/// Whether `p` lies in the view, borders included.
pub open spec fn spec_in_view(p: Vec2) -> bool {
    &&& 0 <= p.x.raw <= VIEW_SIZE * SCALE
    &&& 0 <= p.y.raw <= VIEW_SIZE * SCALE
}

/// Tests whether `p` lies in the view, borders included.
#[verifier::when_used_as_spec(spec_in_view)]
pub fn in_view(p: Vec2) -> (r: bool)
    ensures
        r == spec_in_view(p),
{
    let size = Fixed::from_int(VIEW_SIZE);
    let zero = Fixed::from_int(0);
    !(p.x.gt(size) || p.x.lt(zero) || p.y.gt(size) || p.y.lt(zero))
}

/// An entity with an anchor point and a transform, from which its position
/// on the screen follows.
pub trait Positioned {
    /// The local point that stands for the entity.
    spec fn anchor(&self) -> Vec2;

    /// The entity's current transform.
    spec fn placement(&self) -> Transform;

    /// Returns the anchor point.
    fn position_point(&self) -> (p: Vec2)
        ensures
            p == self.anchor(),
    ;

    /// Returns the current transform.
    fn transform_matrix(&self) -> (t: Transform)
        ensures
            t == self.placement(),
    ;

    /// The entity's position in pixels.
    fn get_position(&self) -> (p: Vec2)
        ensures
            p == spec_world_position(self.anchor(), self.placement()),
    {
        world_position(self.position_point(), self.transform_matrix())
    }
}

/// Away from the ends of the number range the pixel mapping is the affine
/// map `256 + 256 * d`: the normalized interval `-1..1` covers the view.
pub proof fn lemma_to_pixels_affine(d: Fixed)
    requires
        -0x10_0000_0000_0000 <= d.raw <= 0x10_0000_0000_0000,
    ensures
        spec_to_pixels(d).raw == 256 * SCALE + 256 * d.raw,
{
    let size = Fixed::from_int(VIEW_SIZE);
    crate::fixed::lemma_mul_whole(d, VIEW_SIZE);
    assert(d.mul(size).raw == saturate(d.raw * 512));
    assert(d.mul(size).raw == d.raw * 512);
}

} // verus!
