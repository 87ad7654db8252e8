//! The player's ship: steering, thrust, the weapon's cooldown and the wrap
//! to the other side of the screen.

use vstd::prelude::*;
use crate::controls::ButtonStates;
use crate::fixed::{Fixed, SCALE};
use crate::positioned::{spec_world_position, Positioned, VIEW_SIZE};
use crate::shape::Shape;
use crate::transform::{Rotation, Transform, Vec2};

verus! {

/// Half the side of the view, in pixels.
pub const HALF_VIEW: i32 = 256;

/// The ship.
///
/// `rotation` accumulates the angle turned so far, in radians. The transform
/// alone does not give it back, and the wrap rebuilds the transform from
/// scratch, so the heading is kept here and applied again after a wrap.
#[derive(Clone, Copy, Debug, PartialEq, Eq, Structural)]
pub struct Ship {
    pub transform: Transform,
    /// Radians per second.
    pub rot_speed: Fixed,
    /// Pixels per second.
    pub move_speed: Fixed,
    pub rotation: Fixed,
    pub height: Fixed,
    pub width: Fixed,
    /// Seconds between two shots.
    pub shoot_cooldown: Fixed,
    /// Seconds until the next shot is allowed.
    pub last_shot_counter: Fixed,
}

/// How far from the centre of the view a wrapped ship is set down on one
/// axis: `modifier * 256 * fraction`, held within `limit` on either side.
pub open spec fn spec_wrap_offset(fraction: Fixed, modifier: Fixed, limit: Fixed) -> Fixed {
    modifier.mul(Fixed::from_int(HALF_VIEW)).mul(fraction).clamp(limit.neg(), limit)
}

#[verifier::when_used_as_spec(spec_wrap_offset)]
fn wrap_offset(fraction: Fixed, modifier: Fixed, limit: Fixed) -> (r: Fixed)
    ensures
        r == spec_wrap_offset(fraction, modifier, limit),
{
    modifier.mul(Fixed::from_int(HALF_VIEW)).mul(fraction).clamp(limit.neg(), limit)
}

impl Ship {
    /// The cooldown is never negative, and neither is the time it is reset
    /// to after a shot.
    pub open spec fn wf(&self) -> bool {
        &&& self.last_shot_counter.raw >= 0
        &&& self.shoot_cooldown.raw >= 0
    }

    pub open spec fn spec_new(win_width: i32, win_height: i32) -> Ship {
        Ship {
            transform: Transform::viewport(win_width, win_height).trans(
                Fixed::from_int(win_width).half(),
                Fixed::from_int(win_height).half(),
            ),
            rot_speed: Fixed::from_int(2),
            move_speed: Fixed::from_int(120),
            rotation: Fixed::from_int(0),
            height: Fixed::from_int(20),
            width: Fixed::from_int(16),
            shoot_cooldown: Fixed::from_int(3),
            last_shot_counter: Fixed::from_int(0),
        }
    }

    /// A ship at rest in the centre of a window of the given size, heading
    /// up, ready to fire.
    #[verifier::when_used_as_spec(spec_new)]
    pub fn new(win_width: i32, win_height: i32) -> (ship: Ship)
        requires
            win_width > 0,
            win_height > 0,
        ensures
            ship == Ship::spec_new(win_width, win_height),
            ship.wf(),
    {
        Ship {
            transform: Transform::viewport(win_width, win_height).trans(
                Fixed::from_int(win_width).half(),
                Fixed::from_int(win_height).half(),
            ),
            rot_speed: Fixed::from_int(2),
            move_speed: Fixed::from_int(120),
            rotation: Fixed::from_int(0),
            height: Fixed::from_int(20),
            width: Fixed::from_int(16),
            shoot_cooldown: Fixed::from_int(3),
            last_shot_counter: Fixed::from_int(0),
        }
    }

    pub open spec fn spec_get_coords(&self) -> [Vec2; 3] {
        [
            Vec2 { x: Fixed::from_int(0), y: Fixed::from_int(0).sub(self.height.half()) },
            Vec2 {
                x: Fixed::from_int(0).sub(self.width.half()),
                y: Fixed::from_int(0).add(self.height.half()),
            },
            Vec2 {
                x: Fixed::from_int(0).add(self.width.half()),
                y: Fixed::from_int(0).add(self.height.half()),
            },
        ]
    }

    /// The corners of the hull in the local frame: the nose, then the two
    /// ends of the stern.
    #[verifier::when_used_as_spec(spec_get_coords)]
    pub fn get_coords(&self) -> (corners: [Vec2; 3])
        ensures
            corners == self.spec_get_coords(),
    {
        let zero = Fixed::from_int(0);
        [
            Vec2 { x: zero, y: zero.sub(self.height.half()) },
            Vec2 { x: zero.sub(self.width.half()), y: zero.add(self.height.half()) },
            Vec2 { x: zero.add(self.width.half()), y: zero.add(self.height.half()) },
        ]
    }

    /// The hull as a triangle, with the ship's transform.
    pub fn render(&self) -> (shape: Shape)
        ensures
            shape == (Shape::Triangle {
                corners: self.spec_get_coords(),
                transform: self.transform,
            }),
    {
        Shape::Triangle { corners: self.get_coords(), transform: self.transform }
    }

    pub open spec fn spec_get_percent_of_screen_moved(&self) -> Vec2 {
        let nose = self.spec_get_coords()[0];
        self.transform.apply(Vec2 { x: nose.x, y: nose.y.neg() })
    }

    /// The nose of the ship in normalized coordinates, read as an anchor
    /// the way `get_position` reads one: on each axis the fraction of half
    /// the view by which it is off the centre, so that `1` or `-1` is a
    /// border.
    #[verifier::when_used_as_spec(spec_get_percent_of_screen_moved)]
    pub fn get_percent_of_screen_moved(&self) -> (fractions: Vec2)
        ensures
            fractions == self.spec_get_percent_of_screen_moved(),
    {
        let coords = self.get_coords();
        let nose = coords[0];
        self.transform.apply(Vec2 { x: nose.x, y: nose.y.neg() })
    }

    pub open spec fn spec_turn_angle(&self, dt: Fixed) -> Fixed {
        self.rot_speed.mul(dt)
    }

    /// The angle, in radians, by which the ship turns in `dt` seconds.
    #[verifier::when_used_as_spec(spec_turn_angle)]
    pub fn turn_angle(&self, dt: Fixed) -> (angle: Fixed)
        ensures
            angle == self.spec_turn_angle(dt),
    {
        self.rot_speed.mul(dt)
    }

    pub open spec fn spec_rotation_after(&self, dt: Fixed, controls: &ButtonStates) -> Fixed {
        if controls.left && !controls.right {
            self.rotation.sub(self.spec_turn_angle(dt))
        } else if controls.right && !controls.left {
            self.rotation.add(self.spec_turn_angle(dt))
        } else {
            self.rotation
        }
    }

    /// The angle that `rotation` holds once the controls have been applied
    /// for `dt` seconds: the ship turns left or right if exactly one of the
    /// two is held.
    #[verifier::when_used_as_spec(spec_rotation_after)]
    pub fn rotation_after(&self, dt: Fixed, controls: &ButtonStates) -> (angle: Fixed)
        ensures
            angle == self.spec_rotation_after(dt, controls),
    {
        if controls.left && !controls.right {
            self.rotation.sub(self.turn_angle(dt))
        } else if controls.right && !controls.left {
            self.rotation.add(self.turn_angle(dt))
        } else {
            self.rotation
        }
    }

    /// The ship after `rotate_left`.
    pub open spec fn after_rotate_left(&self, dt: Fixed, spin: Rotation) -> Ship {
        Ship {
            rotation: self.rotation.sub(self.spec_turn_angle(dt)),
            transform: self.transform.rot(spin.inverse()),
            ..*self
        }
    }

    /// Turns the ship to the left for `dt` seconds. `spin` is the rotation
    /// by `turn_angle(dt)`; its inverse is applied to the transform, and the
    /// angle is taken off `rotation`.
    pub fn rotate_left(&mut self, dt: Fixed, spin: Rotation)
        ensures
            *final(self) == old(self).after_rotate_left(dt, spin),
    {
        self.rotation = self.rotation.sub(self.rot_speed.mul(dt));
        self.transform = self.transform.rot(spin.inverse());
    }

    /// The ship after `rotate_right`.
    pub open spec fn after_rotate_right(&self, dt: Fixed, spin: Rotation) -> Ship {
        Ship {
            rotation: self.rotation.add(self.spec_turn_angle(dt)),
            transform: self.transform.rot(spin),
            ..*self
        }
    }

    /// Turns the ship to the right for `dt` seconds. `spin` is the rotation
    /// by `turn_angle(dt)`; it is applied to the transform, and the angle is
    /// added to `rotation`.
    pub fn rotate_right(&mut self, dt: Fixed, spin: Rotation)
        ensures
            *final(self) == old(self).after_rotate_right(dt, spin),
    {
        self.rotation = self.rotation.add(self.rot_speed.mul(dt));
        self.transform = self.transform.rot(spin);
    }

    /// The ship after `move_fwd`.
    pub open spec fn after_move_fwd(&self, dt: Fixed) -> Ship {
        Ship {
            transform: self.transform.trans(Fixed::from_int(0), self.move_speed.neg().mul(dt)),
            ..*self
        }
    }

    /// Thrusts for `dt` seconds: the ship moves by `move_speed * dt` along
    /// its nose, which points to negative `y` in the local frame.
    pub fn move_fwd(&mut self, dt: Fixed)
        ensures
            *final(self) == old(self).after_move_fwd(dt),
    {
        let step = self.move_speed.neg().mul(dt);
        self.transform = self.transform.trans(Fixed::from_int(0), step);
    }

    pub open spec fn spec_wrap_limit(&self) -> Fixed {
        Fixed::from_int(HALF_VIEW).sub(self.height.half().max(self.width.half()))
    }

    /// The farthest from the centre of the view that a wrap sets the ship
    /// down: half the view less half the larger side of the hull.
    #[verifier::when_used_as_spec(spec_wrap_limit)]
    pub fn wrap_limit(&self) -> (limit: Fixed)
        ensures
            limit == self.spec_wrap_limit(),
    {
        Fixed::from_int(HALF_VIEW).sub(self.height.half().max(self.width.half()))
    }

    /// The ship after `emerge_other_side`.
    pub open spec fn emerged(
        &self,
        percents: Vec2,
        x_mod: Fixed,
        y_mod: Fixed,
        heading: Rotation,
    ) -> Ship {
        let limit = self.spec_wrap_limit();
        let centre = Fixed::from_int(HALF_VIEW);
        Ship {
            transform: Transform::viewport(VIEW_SIZE, VIEW_SIZE).trans(centre, centre).trans(
                spec_wrap_offset(percents.x, x_mod, limit),
                spec_wrap_offset(percents.y, y_mod, limit),
            ).rot(heading),
            ..*self
        }
    }

    /// Sets the ship down again inside the view.
    ///
    /// `percents` holds the fractions of half the view by which the ship is
    /// off the centre. The transform is rebuilt: the centre of the view,
    /// then a translation by `x_mod * 256 * percents.x` and
    /// `y_mod * 256 * percents.y`, each held within `wrap_limit()` of the
    /// centre, then `heading`, the rotation by the angle in `rotation`.
    /// Nothing but the transform changes.
    pub fn emerge_other_side(
        &mut self,
        percents: &Vec2,
        x_mod: Fixed,
        y_mod: Fixed,
        heading: Rotation,
    )
        ensures
            *final(self) == old(self).emerged(*percents, x_mod, y_mod, heading),
            final(self).rotation == old(self).rotation,
    {
        let limit = self.wrap_limit();
        let centre = Fixed::from_int(HALF_VIEW);
        let x_pos = wrap_offset(percents.x, x_mod, limit);
        let y_pos = wrap_offset(percents.y, y_mod, limit);
        self.transform = Transform::viewport(VIEW_SIZE, VIEW_SIZE).trans(centre, centre).trans(
            x_pos,
            y_pos,
        ).rot(heading);
    }

    pub open spec fn spec_cooled(&self, dt: Fixed) -> Fixed {
        if self.last_shot_counter.raw > 0 {
            let left = self.last_shot_counter.sub(dt);
            if left.raw < 0 {
                Fixed::from_int(0)
            } else {
                left
            }
        } else {
            self.last_shot_counter
        }
    }

    /// The cooldown after `dt` more seconds: taken down by `dt` while it is
    /// positive, and never below zero.
    #[verifier::when_used_as_spec(spec_cooled)]
    pub fn cooled(&self, dt: Fixed) -> (left: Fixed)
        ensures
            left == self.spec_cooled(dt),
            self.last_shot_counter.raw >= 0 ==> left.raw >= 0,
    {
        if self.last_shot_counter.gt(Fixed::from_int(0)) {
            let left = self.last_shot_counter.sub(dt);
            if left.lt(Fixed::from_int(0)) {
                Fixed::from_int(0)
            } else {
                left
            }
        } else {
            self.last_shot_counter
        }
    }

    /// The ship after `update`.
    pub open spec fn after_update(&self, dt: Fixed, heading: Rotation) -> Ship {
        let cooled = Ship { last_shot_counter: self.spec_cooled(dt), ..*self };
        let pos = spec_world_position(cooled.anchor(), cooled.transform);
        let one = Fixed::from_int(1);
        if pos.y.raw > VIEW_SIZE * SCALE || pos.y.raw < 0 {
            cooled.emerged(cooled.spec_get_percent_of_screen_moved(), one, one, heading)
        } else if pos.x.raw > VIEW_SIZE * SCALE || pos.x.raw < 0 {
            let back = one.neg();
            cooled.emerged(cooled.spec_get_percent_of_screen_moved(), back, back, heading)
        } else {
            cooled
        }
    }

    /// Lets `dt` seconds pass: the cooldown runs down, and a ship whose
    /// position has left the view is set down again inside it. The `y` axis
    /// is looked at first: a ship that is out along `y` is wrapped with the
    /// modifiers `(1, 1)`, one that is out along `x` only with `(-1, -1)`.
    /// `heading` is the rotation by the angle in `rotation`.
    pub fn update(&mut self, dt: Fixed, heading: Rotation)
        ensures
            *final(self) == old(self).after_update(dt, heading),
            final(self).rotation == old(self).rotation,
            old(self).wf() ==> final(self).wf(),
    {
        self.last_shot_counter = self.cooled(dt);
        let pos = self.get_position();
        let size = Fixed::from_int(VIEW_SIZE);
        let zero = Fixed::from_int(0);
        let one = Fixed::from_int(1);
        if pos.y.gt(size) || pos.y.lt(zero) {
            let percents = self.get_percent_of_screen_moved();
            self.emerge_other_side(&percents, one, one, heading);
        } else if pos.x.gt(size) || pos.x.lt(zero) {
            let percents = self.get_percent_of_screen_moved();
            self.emerge_other_side(&percents, one.neg(), one.neg(), heading);
        }
    }
}

impl Positioned for Ship {
    open spec fn anchor(&self) -> Vec2 {
        Vec2 { x: Fixed::from_int(0), y: Fixed::from_int(0) }
    }

    open spec fn placement(&self) -> Transform {
        self.transform
    }

    fn position_point(&self) -> (p: Vec2) {
        Vec2 { x: Fixed::from_int(0), y: Fixed::from_int(0) }
    }

    fn transform_matrix(&self) -> (t: Transform) {
        self.transform
    }
}

} // verus!
