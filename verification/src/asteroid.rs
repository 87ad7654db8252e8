//! Asteroids: they drift, bounce off the borders of the view, and break in
//! two when they are hit.

use vstd::prelude::*;
use crate::fixed::{Fixed, SCALE};
use crate::positioned::{spec_world_position, Positioned, VIEW_SIZE};
use crate::shape::{Rect, Shape};
use crate::transform::{Transform, Vec2};

verus! {

/// A fragment is made only if it is wider and higher than this many pixels.
pub const FRAGMENT_LIMIT: i32 = 24;

/// An asteroid. `velocity` is in pixels per second on each axis of the
/// local frame.
#[derive(Clone, Copy, Debug, PartialEq, Eq, Structural)]
pub struct Asteroid {
    pub id: i64,
    pub transform: Transform,
    pub width: Fixed,
    pub height: Fixed,
    pub velocity: Vec2,
}

/// What is fixed about an asteroid before it is given an id and a velocity.
#[derive(Clone, Copy, Debug, PartialEq, Eq, Structural)]
pub struct AsteroidStats {
    pub transform: Transform,
    pub width: Fixed,
    pub height: Fixed,
}

impl Asteroid {
    /// Both sides are positive.
    pub open spec fn wf(&self) -> bool {
        &&& self.width.raw > 0
        &&& self.height.raw > 0
    }

    /// The asteroid after `update`.
    pub open spec fn after_update(&self, dt: Fixed) -> Asteroid {
        let moved = self.transform.trans(self.velocity.x.mul(dt), self.velocity.y.mul(dt));
        let pos = spec_world_position(self.anchor(), moved);
        let x_max = Fixed::from_int(VIEW_SIZE);
        let x_min = self.width.half();
        let y_max = Fixed::from_int(VIEW_SIZE).sub(self.height.half());
        let y_min = Fixed::from_int(0);
        Asteroid {
            id: self.id,
            transform: moved,
            width: self.width,
            height: self.height,
            velocity: Vec2 {
                x: if pos.x.raw > x_max.raw || pos.x.raw < x_min.raw {
                    self.velocity.x.neg()
                } else {
                    self.velocity.x
                },
                y: if pos.y.raw > y_max.raw || pos.y.raw < y_min.raw {
                    self.velocity.y.neg()
                } else {
                    self.velocity.y
                },
            },
        }
    }

    /// Lets `dt` seconds pass: the asteroid drifts by its velocity, and on
    /// each axis on which its position is then past a border (`width / 2`
    /// and `512` on `x`, `0` and `512 - height / 2` on `y`) the velocity is
    /// turned round.
    pub fn update(&mut self, dt: Fixed)
        ensures
            *final(self) == old(self).after_update(dt),
            final(self).id == old(self).id,
            old(self).wf() ==> final(self).wf(),
    {
        self.transform = self.transform.trans(self.velocity.x.mul(dt), self.velocity.y.mul(dt));
        let pos = self.get_position();
        let x_max = Fixed::from_int(VIEW_SIZE);
        let x_min = self.width.half();
        let y_max = Fixed::from_int(VIEW_SIZE).sub(self.height.half());
        let y_min = Fixed::from_int(0);
        if pos.x.gt(x_max) || pos.x.lt(x_min) {
            self.velocity.x = self.velocity.x.neg();
        }
        if pos.y.gt(y_max) || pos.y.lt(y_min) {
            self.velocity.y = self.velocity.y.neg();
        }
    }

    /// Whether the asteroid leaves fragments: both halved sides are above
    /// `FRAGMENT_LIMIT`.
    pub open spec fn splits(&self) -> bool {
        &&& self.width.half().raw > FRAGMENT_LIMIT * SCALE
        &&& self.height.half().raw > FRAGMENT_LIMIT * SCALE
    }

    /// The fragment that is set off by `shift` along the local `x` axis.
    pub open spec fn fragment(&self, shift: Fixed) -> AsteroidStats {
        AsteroidStats {
            transform: self.transform.trans(shift, Fixed::from_int(0)),
            width: self.width.half(),
            height: self.height.half(),
        }
    }

    pub open spec fn spec_fragments(&self) -> Option<(AsteroidStats, AsteroidStats)> {
        if self.splits() {
            Some((self.fragment(self.width.half().neg()), self.fragment(self.width.half())))
        } else {
            None
        }
    }

    /// The two fragments that the asteroid leaves when it is hit, or `None`
    /// if it is too small to leave any. A fragment has half the width and
    /// half the height; the first is set off by the new width to the left
    /// of where the asteroid was, the second to the right.
    #[verifier::when_used_as_spec(spec_fragments)]
    pub fn fragments(&self) -> (parts: Option<(AsteroidStats, AsteroidStats)>)
        ensures
            parts == self.spec_fragments(),
            parts is Some <==> self.splits(),
            parts matches Some((left, right)) ==> {
                &&& left.width == self.width.half()
                &&& left.height == self.height.half()
                &&& right.width == self.width.half()
                &&& right.height == self.height.half()
                &&& left.width.raw > 0 && left.height.raw > 0
                &&& right.width.raw > 0 && right.height.raw > 0
            },
    {
        let new_width = self.width.half();
        let new_height = self.height.half();
        let limit = Fixed::from_int(FRAGMENT_LIMIT);
        if new_width.gt(limit) && new_height.gt(limit) {
            let zero = Fixed::from_int(0);
            Some(
                (
                    AsteroidStats {
                        transform: self.transform.trans(new_width.neg(), zero),
                        width: new_width,
                        height: new_height,
                    },
                    AsteroidStats {
                        transform: self.transform.trans(new_width, zero),
                        width: new_width,
                        height: new_height,
                    },
                ),
            )
        } else {
            None
        }
    }

    /// The asteroid as an ellipse in a box of its width and height, with
    /// the asteroid's transform.
    pub fn render(&self) -> (shape: Shape)
        ensures
            shape == (Shape::Ellipse {
                bounds: Rect {
                    x: Fixed::from_int(0),
                    y: Fixed::from_int(0),
                    width: self.width,
                    height: self.height,
                },
                transform: self.transform,
            }),
    {
        Shape::Ellipse {
            bounds: Rect {
                x: Fixed::from_int(0),
                y: Fixed::from_int(0),
                width: self.width,
                height: self.height,
            },
            transform: self.transform,
        }
    }
}

impl Positioned for Asteroid {
    open spec fn anchor(&self) -> Vec2 {
        Vec2 { x: self.width.half(), y: self.height.neg().half() }
    }

    open spec fn placement(&self) -> Transform {
        self.transform
    }

    fn position_point(&self) -> (p: Vec2) {
        Vec2 { x: self.width.half(), y: self.height.neg().half() }
    }

    fn transform_matrix(&self) -> (t: Transform) {
        self.transform
    }
}

} // verus!
