//! The test for a bullet hitting an asteroid.
//!
//! An asteroid counts as a disc about its position, a bullet as a point
//! with a margin of half its size.

use vstd::prelude::*;
use crate::fixed::{Fixed, SCALE};
use crate::transform::Vec2;

verus! {

/// Half the size of a bullet, in pixels.
pub const BULLET_MARGIN: i32 = 5;

/// Whether a bullet at `bullet` hits the disc of the given radius about
/// `centre`: the distance between the two points is smaller than the radius
/// plus `BULLET_MARGIN`. Differences and squares are exact here, so nothing
/// is rounded or cut off.
pub open spec fn spec_collides(bullet: Vec2, centre: Vec2, radius: Fixed) -> bool {
    let dx = bullet.x.raw - centre.x.raw;
    let dy = bullet.y.raw - centre.y.raw;
    let reach = radius.raw + BULLET_MARGIN * SCALE;
    reach > 0 && dx * dx + dy * dy < reach * reach
}

/// The distance between `a` and `b`, as a number that is not negative.
fn gap(a: i64, b: i64) -> (g: i128)
    ensures
        g == if a >= b {
            a - b
        } else {
            b - a
        },
{
    if a >= b {
        a as i128 - b as i128
    } else {
        b as i128 - a as i128
    }
}

/// Tests whether a bullet at `bullet` hits the disc of the given radius
/// about `centre`.
#[verifier::when_used_as_spec(spec_collides)]
pub fn collides(bullet: Vec2, centre: Vec2, radius: Fixed) -> (hit: bool)
    ensures
        hit == spec_collides(bullet, centre, radius),
{
    let reach: i128 = radius.raw as i128 + 5_000_000_000;
    if reach <= 0 {
        return false;
    }
    let ax: i128 = gap(bullet.x.raw, centre.x.raw);
    let ay: i128 = gap(bullet.y.raw, centre.y.raw);
    let ghost dx = bullet.x.raw - centre.x.raw;
    let ghost dy = bullet.y.raw - centre.y.raw;
    assert(dx * dx == ax * ax && dy * dy == ay * ay) by (nonlinear_arith)
        requires
            ax == dx || ax == -dx,
            ay == dy || ay == -dy,
    ;
    if ax >= reach || ay >= reach {
        assert(ax * ax + ay * ay >= reach * reach) by (nonlinear_arith)
            requires
                ax >= reach || ay >= reach,
                reach > 0,
                ax >= 0,
                ay >= 0,
        ;
        return false;
    }
    assert(ax * ax <= 0x5000_0000_0000_0000_0000_0000_0000_0000 && ay * ay
        <= 0x5000_0000_0000_0000_0000_0000_0000_0000 && reach * reach
        <= 0x5000_0000_0000_0000_0000_0000_0000_0000) by (nonlinear_arith)
        requires
            0 <= ax < reach,
            0 <= ay < reach,
            reach <= 0x8800_0000_0000_0000,
    ;
    let far: u128 = (ax as u128) * (ax as u128) + (ay as u128) * (ay as u128);
    let near: u128 = (reach as u128) * (reach as u128);
    far < near
}

/// The test looks at the distance between the two points only: exchanging
/// them changes nothing.
pub proof fn lemma_collides_symmetric(p: Vec2, q: Vec2, radius: Fixed)
    ensures
        spec_collides(p, q, radius) == spec_collides(q, p, radius),
{
    let dx = p.x.raw - q.x.raw;
    let dy = p.y.raw - q.y.raw;
    assert(dx * dx == (-dx) * (-dx)) by (nonlinear_arith);
    assert(dy * dy == (-dy) * (-dy)) by (nonlinear_arith);
}

} // verus!
