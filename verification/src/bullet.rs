//! Bullets: they fly straight ahead and do not live long.

use vstd::prelude::*;
use crate::fixed::Fixed;
use crate::positioned::{in_view, spec_in_view, spec_world_position, Positioned};
use crate::shape::{Rect, Shape};
use crate::transform::{Transform, Vec2};

verus! {

/// Pixels that a bullet covers in one step.
pub const BULLET_STEP: i32 = 5;

/// Side of a bullet, in pixels.
pub const BULLET_SIZE: i32 = 10;

/// Billionths of a second after which a bullet is spent: 1.2 s.
pub const BULLET_LIFETIME: i64 = 1_200_000_000;

/// A bullet in flight. `lifetime` counts the seconds since it was fired.
#[derive(Clone, Copy, Debug, PartialEq, Eq, Structural)]
pub struct Bullet {
    pub id: i64,
    pub transform: Transform,
    pub lifetime: Fixed,
}

impl Bullet {
    /// The bullet after `update`.
    pub open spec fn after_update(&self, dt: Fixed) -> Bullet {
        Bullet {
            id: self.id,
            transform: self.transform.trans(
                Fixed::from_int(0),
                Fixed::from_int(BULLET_STEP).neg(),
            ),
            lifetime: self.lifetime.add(dt),
        }
    }

    /// One step of flight: the bullet moves `BULLET_STEP` pixels along the
    /// negative `y` axis of its local frame, and grows older by `dt`.
    pub fn update(&mut self, dt: Fixed)
        ensures
            *final(self) == old(self).after_update(dt),
            dt.raw >= 0 ==> final(self).lifetime.raw >= old(self).lifetime.raw,
    {
        let step = Fixed::from_int(BULLET_STEP).neg();
        self.transform = self.transform.trans(Fixed::from_int(0), step);
        self.lifetime = self.lifetime.add(dt);
    }

    pub open spec fn spec_is_spent(&self) -> bool {
        ||| !spec_in_view(spec_world_position(self.anchor(), self.transform))
        ||| self.lifetime.raw >= BULLET_LIFETIME
    }

    /// Whether the bullet is to be taken away: it has left the view, or it
    /// has lived for 1.2 seconds.
    #[verifier::when_used_as_spec(spec_is_spent)]
    pub fn is_spent(&self) -> (spent: bool)
        ensures
            spent == self.spec_is_spent(),
    {
        let pos = self.get_position();
        !in_view(pos) || self.lifetime.ge(Fixed::from_raw(BULLET_LIFETIME))
    }

    /// The bullet as an ellipse in a square of `BULLET_SIZE`, with the
    /// bullet's transform.
    pub fn render(&self) -> (shape: Shape)
        ensures
            shape == (Shape::Ellipse {
                bounds: Rect {
                    x: Fixed::from_int(0),
                    y: Fixed::from_int(0),
                    width: Fixed::from_int(BULLET_SIZE),
                    height: Fixed::from_int(BULLET_SIZE),
                },
                transform: self.transform,
            }),
    {
        Shape::Ellipse {
            bounds: Rect {
                x: Fixed::from_int(0),
                y: Fixed::from_int(0),
                width: Fixed::from_int(BULLET_SIZE),
                height: Fixed::from_int(BULLET_SIZE),
            },
            transform: self.transform,
        }
    }
}

impl Positioned for Bullet {
    open spec fn anchor(&self) -> Vec2 {
        Vec2 { x: Fixed::from_int(5), y: Fixed::from_int(5).neg() }
    }

    open spec fn placement(&self) -> Transform {
        self.transform
    }

    fn position_point(&self) -> (p: Vec2) {
        Vec2 { x: Fixed::from_int(5), y: Fixed::from_int(5).neg() }
    }

    fn transform_matrix(&self) -> (t: Transform) {
        self.transform
    }
}

} // verus!
