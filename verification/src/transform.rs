//! Plane vectors, rotations and affine transforms over [`Fixed`] numbers.

use vstd::prelude::*;
use crate::fixed::Fixed;

verus! {

/// A point or a displacement in the plane.
#[derive(Clone, Copy, Debug, PartialEq, Eq, Structural)]
pub struct Vec2 {
    pub x: Fixed,
    pub y: Fixed,
}

impl Vec2 {
    /// The vector with the given coordinates.
    pub fn new(x: Fixed, y: Fixed) -> (v: Vec2)
        ensures
            v == (Vec2 { x, y }),
    {
        Vec2 { x, y }
    }
}

/// A rotation of the plane, held as the cosine and the sine of its angle.
///
/// The simulation works in fixed point and has no trigonometry of its own:
/// whoever drives it supplies the pair for each angle that it turns by.
#[derive(Clone, Copy, Debug, PartialEq, Eq, Structural)]
pub struct Rotation {
    pub cos: Fixed,
    pub sin: Fixed,
}

impl Rotation {
    /// The rotation with the given cosine and sine.
    pub fn new(cos: Fixed, sin: Fixed) -> (r: Rotation)
        ensures
            r == (Rotation { cos, sin }),
    {
        Rotation { cos, sin }
    }

    pub open spec fn spec_identity() -> Rotation {
        Rotation { cos: Fixed::from_int(1), sin: Fixed::from_int(0) }
    }

    /// The rotation by the angle zero.
    #[verifier::when_used_as_spec(spec_identity)]
    pub fn identity() -> (r: Rotation)
        ensures
            r == Rotation::spec_identity(),
    {
        Rotation { cos: Fixed::from_int(1), sin: Fixed::from_int(0) }
    }

    pub open spec fn spec_inverse(self) -> Rotation {
        Rotation { cos: self.cos, sin: self.sin.neg() }
    }

    /// The rotation by the opposite angle.
    #[verifier::when_used_as_spec(spec_inverse)]
    pub fn inverse(self) -> (r: Rotation)
        ensures
            r == self.spec_inverse(),
    {
        Rotation { cos: self.cos, sin: self.sin.neg() }
    }
}

/// The affine map `x' = a*x + b*y + c`, `y' = d*x + e*y + f`.
#[derive(Clone, Copy, Debug, PartialEq, Eq, Structural)]
pub struct Transform {
    pub a: Fixed,
    pub b: Fixed,
    pub c: Fixed,
    pub d: Fixed,
    pub e: Fixed,
    pub f: Fixed,
}

/// `p*x + q*y + r`, summed from left to right.
pub open spec fn spec_row(p: Fixed, q: Fixed, r: Fixed, x: Fixed, y: Fixed) -> Fixed {
    p.mul(x).add(q.mul(y)).add(r)
}

/// `p*x + q*y`.
pub open spec fn spec_dot(p: Fixed, q: Fixed, x: Fixed, y: Fixed) -> Fixed {
    p.mul(x).add(q.mul(y))
}

#[verifier::when_used_as_spec(spec_row)]
fn row(p: Fixed, q: Fixed, r: Fixed, x: Fixed, y: Fixed) -> (s: Fixed)
    ensures
        s == spec_row(p, q, r, x, y),
{
    p.mul(x).add(q.mul(y)).add(r)
}

#[verifier::when_used_as_spec(spec_dot)]
fn dot(p: Fixed, q: Fixed, x: Fixed, y: Fixed) -> (s: Fixed)
    ensures
        s == spec_dot(p, q, x, y),
{
    p.mul(x).add(q.mul(y))
}

impl Transform {
    pub open spec fn spec_viewport(width: i32, height: i32) -> Transform {
        Transform {
            a: Fixed::ratio(2, width),
            b: Fixed::from_int(0),
            c: Fixed::from_int(1).neg(),
            d: Fixed::from_int(0),
            e: Fixed::ratio(2, height).neg(),
            f: Fixed::from_int(1),
        }
    }

    /// The map from pixel coordinates of a `width` by `height` window, with
    /// the origin in its upper left corner and `y` pointing down, to
    /// normalized coordinates: the window spans `-1..1` on both axes, with
    /// `y` pointing up.
    #[verifier::when_used_as_spec(spec_viewport)]
    pub fn viewport(width: i32, height: i32) -> (t: Transform)
        requires
            width > 0,
            height > 0,
        ensures
            t == Transform::spec_viewport(width, height),
    {
        Transform {
            a: Fixed::ratio(2, width),
            b: Fixed::from_int(0),
            c: Fixed::from_int(1).neg(),
            d: Fixed::from_int(0),
            e: Fixed::ratio(2, height).neg(),
            f: Fixed::from_int(1),
        }
    }

    pub open spec fn spec_apply(self, p: Vec2) -> Vec2 {
        Vec2 {
            x: spec_row(self.a, self.b, self.c, p.x, p.y),
            y: spec_row(self.d, self.e, self.f, p.x, p.y),
        }
    }

    /// The image of the point `p`.
    #[verifier::when_used_as_spec(spec_apply)]
    pub fn apply(self, p: Vec2) -> (q: Vec2)
        ensures
            q == self.spec_apply(p),
    {
        Vec2 {
            x: row(self.a, self.b, self.c, p.x, p.y),
            y: row(self.d, self.e, self.f, p.x, p.y),
        }
    }

    pub open spec fn spec_trans(self, x: Fixed, y: Fixed) -> Transform {
        Transform {
            a: self.a,
            b: self.b,
            c: spec_row(self.a, self.b, self.c, x, y),
            d: self.d,
            e: self.e,
            f: spec_row(self.d, self.e, self.f, x, y),
        }
    }

    /// This map after a translation by `(x, y)`: the translation acts
    /// first, in the local frame.
    #[verifier::when_used_as_spec(spec_trans)]
    pub fn trans(self, x: Fixed, y: Fixed) -> (t: Transform)
        ensures
            t == self.spec_trans(x, y),
    {
        Transform {
            a: self.a,
            b: self.b,
            c: row(self.a, self.b, self.c, x, y),
            d: self.d,
            e: self.e,
            f: row(self.d, self.e, self.f, x, y),
        }
    }

    pub open spec fn spec_rot(self, r: Rotation) -> Transform {
        Transform {
            a: spec_dot(self.a, self.b, r.cos, r.sin),
            b: spec_dot(self.a, self.b, r.sin.neg(), r.cos),
            c: self.c,
            d: spec_dot(self.d, self.e, r.cos, r.sin),
            e: spec_dot(self.d, self.e, r.sin.neg(), r.cos),
            f: self.f,
        }
    }

    /// This map after the rotation `r`: the rotation acts first, about the
    /// local origin.
    #[verifier::when_used_as_spec(spec_rot)]
    pub fn rot(self, r: Rotation) -> (t: Transform)
        ensures
            t == self.spec_rot(r),
    {
        let back = r.sin.neg();
        Transform {
            a: dot(self.a, self.b, r.cos, r.sin),
            b: dot(self.a, self.b, back, r.cos),
            c: self.c,
            d: dot(self.d, self.e, r.cos, r.sin),
            e: dot(self.d, self.e, back, r.cos),
            f: self.f,
        }
    }
}

} // verus!
