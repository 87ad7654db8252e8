//! What holds of the game whatever happens in it, stated over the states
//! and proved from the definitions of the steps.
//!
//! The laws come in groups: positions and rotations, the life of a bullet,
//! the ids, the fragments of an asteroid, the weapon's cooldown, the wrap
//! of the ship, and the search for hits.

use vstd::prelude::*;
use crate::asteroid::Asteroid;
use crate::controls::ButtonStates;
use crate::fixed::{lemma_mul_unit, lemma_mul_zero, Fixed, SCALE};
use crate::positioned::{
    lemma_to_pixels_affine,
    spec_in_view,
    spec_to_pixels,
    spec_world_position,
    Positioned,
    VIEW_SIZE,
};
use crate::ship::{spec_wrap_offset, Ship, HALF_VIEW};
use crate::transform::{Rotation, Transform, Vec2};
use crate::world::{
    fragment_seq,
    fragments_of,
    is_fragment,
    lemma_fragments_of,
    spec_steered,
    AppView,
};

verus! {

/// A state that a tick from `before` to `after` passes through once the
/// bullets and the hits are culled, before the game is advanced.
spec fn middle(
    before: AppView,
    after: AppView,
    dt: Fixed,
    controls: ButtonStates,
    spin: Rotation,
    heading: Rotation,
) -> AppView {
    choose|mid: AppView|
        {
            &&& #[trigger] mid.culled_from(before.after_cull_expired())
            &&& after == mid.advanced(dt, controls, spin, heading)
        }
}

/// The state in which the shot of a tick, if there is one, has been fired,
/// before anything is updated.
spec fn fired(mid: AppView, dt: Fixed, controls: ButtonStates, spin: Rotation) -> AppView {
    let steered = AppView { ship: spec_steered(mid.ship, dt, controls, spin), ..mid };
    if steered.fires(controls) {
        steered.after_shoot()
    } else {
        steered
    }
}

// Positions and rotations.

/// A point is in the view exactly when both of its normalized coordinates
/// lie in `-1..1`, as long as they are away from the ends of the number
/// range.
pub proof fn lemma_in_view_normalized(d: Vec2)
    requires
        -0x10_0000_0000_0000 <= d.x.raw <= 0x10_0000_0000_0000,
        -0x10_0000_0000_0000 <= d.y.raw <= 0x10_0000_0000_0000,
    ensures
        spec_in_view(Vec2 { x: spec_to_pixels(d.x), y: spec_to_pixels(d.y) }) <==> {
            &&& -SCALE <= d.x.raw <= SCALE
            &&& -SCALE <= d.y.raw <= SCALE
        },
{
    lemma_to_pixels_affine(d.x);
    lemma_to_pixels_affine(d.y);
}

/// Turning by the angle zero leaves a transform as it is.
pub proof fn lemma_rot_identity(t: Transform)
    ensures
        t.rot(Rotation::identity()) == t,
{
    lemma_mul_unit(t.a);
    lemma_mul_unit(t.b);
    lemma_mul_unit(t.d);
    lemma_mul_unit(t.e);
    lemma_mul_zero(t.a);
    lemma_mul_zero(t.b);
    lemma_mul_zero(t.d);
    lemma_mul_zero(t.e);
}

// The life of a bullet.

/// A bullet that is spent when a tick starts, because it has left the view
/// or has lived for 1.2 seconds, is no longer in the game when the tick
/// ends.
pub proof fn lemma_spent_bullet_is_gone(
    before: AppView,
    after: AppView,
    dt: Fixed,
    controls: ButtonStates,
    spin: Rotation,
    heading: Rotation,
    id: i64,
)
    requires
        before.wf(),
        after.ticked_from(before, dt, controls, spin, heading),
        before.bullets.contains_key(id),
        before.bullets[id].is_spent(),
    ensures
        !after.bullets.contains_key(id),
{
    let mid = middle(before, after, dt, controls, spin, heading);
    assert(before.spent_bullets().contains(id));
    assert(!mid.bullets.contains_key(id));
    assert(mid.next_bullet_id == before.next_bullet_id);
}

/// A bullet that is in the game before and after a tick has grown older by
/// the time that the tick took. If that time is not negative, its lifetime
/// has not gone down.
pub proof fn lemma_bullet_ages(
    before: AppView,
    after: AppView,
    dt: Fixed,
    controls: ButtonStates,
    spin: Rotation,
    heading: Rotation,
    id: i64,
)
    requires
        before.wf(),
        after.ticked_from(before, dt, controls, spin, heading),
        before.bullets.contains_key(id),
        after.bullets.contains_key(id),
    ensures
        after.bullets[id].lifetime == before.bullets[id].lifetime.add(dt),
        dt.raw >= 0 ==> after.bullets[id].lifetime.raw >= before.bullets[id].lifetime.raw,
{
    let mid = middle(before, after, dt, controls, spin, heading);
    let shot = fired(mid, dt, controls, spin);
    assert(mid.next_bullet_id == before.next_bullet_id);
    assert(shot.bullets.contains_key(id));
    assert(mid.bullets.contains_key(id));
    assert(shot.bullets[id] == before.bullets[id]);
}

// The ids.

/// Ids are never used twice. Over a tick neither counter goes down; a
/// bullet or an asteroid that is in the game afterwards and was not there
/// before has an id at or above the counter from before the tick, which no
/// earlier bullet or asteroid has had; and everything is kept under its
/// own id.
pub proof fn lemma_ids_are_fresh(
    before: AppView,
    after: AppView,
    dt: Fixed,
    controls: ButtonStates,
    spin: Rotation,
    heading: Rotation,
)
    requires
        before.wf(),
        before.has_room_for_fragments(),
        before.next_bullet_id < i64::MAX,
        after.ticked_from(before, dt, controls, spin, heading),
    ensures
        after.next_bullet_id >= before.next_bullet_id,
        after.next_asteroid_id >= before.next_asteroid_id,
        forall|k: i64|
            after.bullets.contains_key(k) && !before.bullets.contains_key(k)
                ==> before.next_bullet_id <= k < after.next_bullet_id,
        forall|k: i64|
            after.asteroids.contains_key(k) && !before.asteroids.contains_key(k)
                ==> before.next_asteroid_id <= k < after.next_asteroid_id,
        forall|k: i64| #[trigger] after.bullets.contains_key(k) ==> after.bullets[k].id == k,
        forall|k: i64| #[trigger] after.asteroids.contains_key(k) ==> after.asteroids[k].id == k,
{
    let mid = middle(before, after, dt, controls, spin, heading);
    let shot = fired(mid, dt, controls, spin);
    let culled = before.after_cull_expired();
    let first = before.next_asteroid_id;
    lemma_fragments_of(culled.asteroids, culled.asteroids_to_remove);
    assert forall|k: i64| #[trigger] mid.asteroids.contains_key(k) implies {
        &&& mid.asteroids[k].id == k
        &&& before.asteroids.contains_key(k) || first <= k < mid.next_asteroid_id
    } by {
        if !culled.after_removals().asteroids.contains_key(k) {
            let i = k - first;
            assert(is_fragment(
                mid.asteroids[(first + i) as i64],
                first + i,
                culled.fragments_due()[i],
            ));
        }
    }
    assert forall|k: i64| #[trigger] shot.bullets.contains_key(k) implies {
        &&& shot.bullets[k].id == k
        &&& before.bullets.contains_key(k) || k == before.next_bullet_id
    } by {
        if mid.bullets.contains_key(k) {
            assert(culled.bullets.contains_key(k));
        }
    }
}

/// A game without bullets stays as it is in its numbers: if no bullet is
/// in flight, no asteroid is queued and `fire` is not held, a tick leaves
/// the game without bullets and with the asteroids that it had, each under
/// its id and updated once.
pub proof fn lemma_quiet_tick(
    before: AppView,
    after: AppView,
    dt: Fixed,
    controls: ButtonStates,
    spin: Rotation,
    heading: Rotation,
)
    requires
        before.bullets.dom() =~= Set::<i64>::empty(),
        before.asteroids_to_remove.len() == 0,
        !controls.fire,
        after.ticked_from(before, dt, controls, spin, heading),
    ensures
        after.bullets.dom() =~= Set::<i64>::empty(),
        after.asteroids.dom() =~= before.asteroids.dom(),
        forall|k: i64| #[trigger]
            before.asteroids.contains_key(k) ==> after.asteroids[k]
                == before.asteroids[k].after_update(dt),
        after.next_bullet_id == before.next_bullet_id,
        after.next_asteroid_id == before.next_asteroid_id,
        after.asteroids_to_remove.len() == 0,
{
    let mid = middle(before, after, dt, controls, spin, heading);
    let culled = before.after_cull_expired();
    assert(culled.asteroids_to_remove.to_set() =~= Set::<i64>::empty());
    assert(culled.after_removals().asteroids =~= before.asteroids);
    assert(fragments_of(culled.asteroids, culled.asteroids_to_remove).len() == 0);
    assert(mid.asteroids.dom() =~= before.asteroids.dom());
    assert(mid.bullets.dom() =~= Set::<i64>::empty());
}

/// An asteroid that is in the game before and after a tick has been
/// updated once: it has drifted and perhaps bounced, and its sides are what
/// they were.
pub proof fn lemma_asteroid_lives_on(
    before: AppView,
    after: AppView,
    dt: Fixed,
    controls: ButtonStates,
    spin: Rotation,
    heading: Rotation,
    id: i64,
)
    requires
        before.wf(),
        after.ticked_from(before, dt, controls, spin, heading),
        before.asteroids.contains_key(id),
        after.asteroids.contains_key(id),
    ensures
        after.asteroids[id] == before.asteroids[id].after_update(dt),
        after.asteroids[id].width == before.asteroids[id].width,
        after.asteroids[id].height == before.asteroids[id].height,
{
    let mid = middle(before, after, dt, controls, spin, heading);
    let culled = before.after_cull_expired();
    assert(mid.asteroids.contains_key(id));
    assert(culled.after_removals().asteroids.contains_key(id));
}

// The fragments of an asteroid.

/// Every fragment that is due has half the width and half the height of an
/// asteroid that is named in the queue, is in the game, and is large
/// enough to split.
pub proof fn lemma_fragments_are_halves(m: Map<i64, Asteroid>, queue: Seq<i64>, i: int)
    requires
        0 <= i < fragments_of(m, queue).len(),
    ensures
        exists|id: i64|
            #![trigger m[id]]
            {
                &&& queue.contains(id)
                &&& m.contains_key(id)
                &&& m[id].splits()
                &&& fragments_of(m, queue)[i].width == m[id].width.half()
                &&& fragments_of(m, queue)[i].height == m[id].height.half()
            },
    decreases queue.len(),
{
    let earlier = queue.drop_last();
    let last = queue.last();
    if i < fragments_of(m, earlier).len() {
        lemma_fragments_are_halves(m, earlier, i);
        let id = choose|id: i64|
            #![trigger m[id]]
            {
                &&& earlier.contains(id)
                &&& m.contains_key(id)
                &&& m[id].splits()
                &&& fragments_of(m, earlier)[i].width == m[id].width.half()
                &&& fragments_of(m, earlier)[i].height == m[id].height.half()
            };
        let p = choose|p: int| 0 <= p < earlier.len() && earlier[p] == id;
        assert(queue[p] == id);
    } else {
        assert(queue[queue.len() - 1] == last);
        assert(m[last].splits());
    }
}

/// An asteroid whose halved width or halved height is not above the limit
/// leaves nothing: if no asteroid named in the queue is large enough to
/// split, no fragment is due.
pub proof fn lemma_small_asteroids_leave_nothing(m: Map<i64, Asteroid>, queue: Seq<i64>)
    requires
        forall|id: i64| queue.contains(id) && m.contains_key(id) ==> !(#[trigger] m[id]).splits(),
    ensures
        fragments_of(m, queue).len() == 0,
    decreases queue.len(),
{
    if queue.len() > 0 {
        let earlier = queue.drop_last();
        assert forall|id: i64|
            earlier.contains(id) && m.contains_key(id) implies !(#[trigger] m[id]).splits() by {
            let p = choose|p: int| 0 <= p < earlier.len() && earlier[p] == id;
            assert(queue[p] == id);
        }
        lemma_small_asteroids_leave_nothing(m, earlier);
        assert(queue[queue.len() - 1] == queue.last());
        if m.contains_key(queue.last()) {
            assert(fragment_seq(m[queue.last()]).len() == 0);
        }
    }
}

/// An asteroid that is large enough to split leaves exactly two fragments
/// when it is queued once.
pub proof fn lemma_one_hit_two_fragments(m: Map<i64, Asteroid>, id: i64)
    requires
        m.contains_key(id),
        m[id].splits(),
    ensures
        fragments_of(m, seq![id]) == seq![
            m[id].fragment(m[id].width.half().neg()),
            m[id].fragment(m[id].width.half()),
        ],
{
    let queue = seq![id];
    assert(queue.drop_last() =~= Seq::<i64>::empty());
    assert(fragments_of(m, queue.drop_last()) =~= Seq::empty());
    assert(fragments_of(m, queue) =~= fragment_seq(m[id]));
}

// The weapon's cooldown.

/// The cooldown of a well-formed ship is not negative after any step of
/// the game.
pub proof fn lemma_cooldown_never_negative(
    s: AppView,
    dt: Fixed,
    controls: ButtonStates,
    spin: Rotation,
    heading: Rotation,
)
    requires
        s.ship.wf(),
    ensures
        s.ship.after_update(dt, heading).last_shot_counter.raw >= 0,
        s.after_cull_expired().ship.last_shot_counter.raw >= 0,
        s.after_removals().ship.last_shot_counter.raw >= 0,
        s.after_shoot().ship.last_shot_counter.raw >= 0,
        s.advanced(dt, controls, spin, heading).ship.last_shot_counter.raw >= 0,
{
}

/// While the cooldown runs, the controls do not fire: advancing a game
/// whose cooldown is positive adds no bullet and uses up no bullet id.
pub proof fn lemma_no_shot_while_cooling(
    s: AppView,
    dt: Fixed,
    controls: ButtonStates,
    spin: Rotation,
    heading: Rotation,
)
    requires
        s.ship.last_shot_counter.raw > 0,
    ensures
        s.advanced(dt, controls, spin, heading).next_bullet_id == s.next_bullet_id,
        s.advanced(dt, controls, spin, heading).bullets.dom() == s.bullets.dom(),
{
    assert(s.advanced(dt, controls, spin, heading).bullets.dom() =~= s.bullets.dom());
}

/// With the weapon ready and `fire` held, advancing the game fires exactly
/// one bullet, under the next bullet id.
pub proof fn lemma_shot_when_ready(
    s: AppView,
    dt: Fixed,
    controls: ButtonStates,
    spin: Rotation,
    heading: Rotation,
)
    requires
        s.ship.last_shot_counter.raw <= 0,
        controls.fire,
    ensures
        s.advanced(dt, controls, spin, heading).next_bullet_id == (s.next_bullet_id + 1) as i64,
        s.advanced(dt, controls, spin, heading).bullets.dom() == s.bullets.dom().insert(
            s.next_bullet_id,
        ),
{
    assert(s.advanced(dt, controls, spin, heading).bullets.dom() =~= s.bullets.dom().insert(
        s.next_bullet_id,
    ));
}

// The wrap of the ship.

/// The offset at which a wrap sets the ship down lies within the limit on
/// either side of the centre, whatever the fraction and the modifier are,
/// as long as the limit is not negative.
pub proof fn lemma_wrap_offset_within_limit(fraction: Fixed, modifier: Fixed, limit: Fixed)
    requires
        limit.raw >= 0,
    ensures
        -limit.raw <= spec_wrap_offset(fraction, modifier, limit).raw <= limit.raw,
{
}

/// A wrap changes the transform and nothing else: the angle in `rotation`
/// is the same number as before, and so are the speeds, the sides and the
/// cooldown.
pub proof fn lemma_wrap_keeps_rotation(
    ship: Ship,
    percents: Vec2,
    x_mod: Fixed,
    y_mod: Fixed,
    heading: Rotation,
)
    ensures
        ship.emerged(percents, x_mod, y_mod, heading) == (Ship {
            transform: ship.emerged(percents, x_mod, y_mod, heading).transform,
            ..ship
        }),
        ship.emerged(percents, x_mod, y_mod, heading).rotation == ship.rotation,
{
}

/// The transform that sets a frame down `x` pixels to the right of the
/// centre of the view and `y` pixels below it sends the origin of the frame
/// to normalized coordinates within `-1..1`, as long as neither offset is
/// longer than half the view.
proof fn lemma_set_down_near_centre(x: Fixed, y: Fixed)
    requires
        -HALF_VIEW * SCALE <= x.raw <= HALF_VIEW * SCALE,
        -HALF_VIEW * SCALE <= y.raw <= HALF_VIEW * SCALE,
    ensures
        ({
            let centre = Fixed::from_int(HALF_VIEW);
            let t = Transform::viewport(VIEW_SIZE, VIEW_SIZE).trans(centre, centre).trans(x, y);
            &&& -SCALE <= t.c.raw <= SCALE
            &&& -SCALE <= t.f.raw <= SCALE
        }),
{
    let centre = Fixed::from_int(HALF_VIEW);
    let base = Transform::viewport(VIEW_SIZE, VIEW_SIZE);
    let centred = base.trans(centre, centre);
    assert(SCALE == 1_000_000_000);
    assert(base.a.raw == 3_906_250 && base.e.raw == -3_906_250);
    lemma_mul_zero(centre);
    lemma_mul_zero(x);
    lemma_mul_zero(y);
    assert(base.a.mul(centre).raw == SCALE) by {
        assert((3_906_250 * (256 * SCALE)) / (SCALE as int) == SCALE);
    }
    assert(base.e.mul(centre).raw == -SCALE) by {
        assert((-3_906_250) * (256 * SCALE) == -(3_906_250 * (256 * SCALE))) by (nonlinear_arith);
        assert((-(3_906_250 * (256 * SCALE))) / (SCALE as int) == -SCALE);
    }
    assert(centred.c.raw == 0 && centred.f.raw == 0);
    assert(-SCALE <= base.a.mul(x).raw <= SCALE) by {
        let across = 3_906_250 * x.raw;
        assert(-SCALE * SCALE <= across <= SCALE * SCALE);
        assert(-SCALE <= across / 1_000_000_000 <= SCALE);
    }
    assert(-SCALE <= base.e.mul(y).raw <= SCALE) by {
        let down = -(3_906_250 * y.raw);
        assert(down == (-3_906_250) * y.raw) by (nonlinear_arith)
            requires
                down == -(3_906_250 * y.raw),
        ;
        assert(-SCALE * SCALE <= down <= SCALE * SCALE);
        assert(-SCALE <= down / 1_000_000_000 <= SCALE);
    }
}

/// A wrap sets the ship down inside the view, as long as the limit of the
/// wrap is neither negative nor beyond half the view: that is, as long as
/// half the larger side of the hull lies between zero and half the view.
pub proof fn lemma_wrap_lands_in_view(
    ship: Ship,
    percents: Vec2,
    x_mod: Fixed,
    y_mod: Fixed,
    heading: Rotation,
)
    requires
        0 <= ship.wrap_limit().raw <= HALF_VIEW * SCALE,
    ensures
        spec_in_view(
            spec_world_position(
                ship.anchor(),
                ship.emerged(percents, x_mod, y_mod, heading).transform,
            ),
        ),
{
    let limit = ship.wrap_limit();
    let x = spec_wrap_offset(percents.x, x_mod, limit);
    let y = spec_wrap_offset(percents.y, y_mod, limit);
    lemma_wrap_offset_within_limit(percents.x, x_mod, limit);
    lemma_wrap_offset_within_limit(percents.y, y_mod, limit);
    lemma_set_down_near_centre(x, y);
    let placed = ship.emerged(percents, x_mod, y_mod, heading).transform;
    lemma_mul_zero(placed.a);
    lemma_mul_zero(placed.b);
    lemma_mul_zero(placed.d);
    lemma_mul_zero(placed.e);
    let seen = placed.apply(Vec2 { x: ship.anchor().x, y: ship.anchor().y.neg() });
    assert(seen.x == placed.c && seen.y == placed.f);
    lemma_to_pixels_affine(seen.x);
    lemma_to_pixels_affine(seen.y);
}

/// After the ship's update its position lies inside the view, whatever it
/// was before, as long as half the larger side of the hull lies between
/// zero and half the view.
pub proof fn lemma_ship_stays_in_view(ship: Ship, dt: Fixed, heading: Rotation)
    requires
        0 <= ship.wrap_limit().raw <= HALF_VIEW * SCALE,
    ensures
        spec_in_view(
            spec_world_position(ship.anchor(), ship.after_update(dt, heading).transform),
        ),
{
    let cooled = Ship { last_shot_counter: ship.spec_cooled(dt), ..ship };
    let one = Fixed::from_int(1);
    let percents = cooled.spec_get_percent_of_screen_moved();
    lemma_wrap_lands_in_view(cooled, percents, one, one, heading);
    lemma_wrap_lands_in_view(cooled, percents, one.neg(), one.neg(), heading);
}

/// However the game is advanced, the ship is inside the view afterwards, as
/// long as half the larger side of its hull lies between zero and half the
/// view.
pub proof fn lemma_advanced_ship_in_view(
    s: AppView,
    dt: Fixed,
    controls: ButtonStates,
    spin: Rotation,
    heading: Rotation,
)
    requires
        0 <= s.ship.wrap_limit().raw <= HALF_VIEW * SCALE,
    ensures
        spec_in_view(
            spec_world_position(
                s.ship.anchor(),
                s.advanced(dt, controls, spin, heading).ship.transform,
            ),
        ),
{
    let shot = fired(s, dt, controls, spin);
    lemma_ship_stays_in_view(shot.ship, dt, heading);
}

// The search for hits.

/// What `detect_collisions` queues does not depend on the order in which it
/// goes through the bullets and the asteroids: a bullet id is in the queue
/// afterwards exactly if it was there before or the bullet hits an
/// asteroid, and likewise for an asteroid id.
pub proof fn lemma_detection_queues(before: AppView, after: AppView)
    requires
        after.detected_from(before),
    ensures
        forall|b: i64|
            after.bullets_to_remove.contains(b) <==> {
                ||| before.bullets_to_remove.contains(b)
                ||| exists|a: i64| before.hits(b, a)
            },
        forall|a: i64|
            after.asteroids_to_remove.contains(a) <==> {
                ||| before.asteroids_to_remove.contains(a)
                ||| exists|b: i64| before.hits(b, a)
            },
{
    let old_b = before.bullets_to_remove;
    let old_a = before.asteroids_to_remove;
    let new_b = after.bullets_to_remove;
    let new_a = after.asteroids_to_remove;
    let nb = old_b.len() as int;
    let na = old_a.len() as int;
    let found = after.new_hits(before);
    assert forall|b: i64|
        new_b.contains(b) <==> {
            ||| old_b.contains(b)
            ||| exists|a: i64| before.hits(b, a)
        } by {
        if new_b.contains(b) {
            let p = choose|p: int| 0 <= p < new_b.len() && new_b[p] == b;
            if p < nb {
                assert(old_b[p] == b);
            } else {
                assert(found[p - nb] == (b, new_a[na + p - nb]));
                assert(found.contains((b, new_a[na + p - nb])));
                assert(before.hits(b, new_a[na + p - nb]));
            }
        }
        if old_b.contains(b) {
            let p = choose|p: int| 0 <= p < nb && old_b[p] == b;
            assert(new_b[p] == b);
        }
        if exists|a: i64| before.hits(b, a) {
            let a = choose|a: i64| before.hits(b, a);
            assert(found.contains((b, a)));
            let p = choose|p: int| 0 <= p < found.len() && found[p] == (b, a);
            assert(new_b[nb + p] == b);
        }
    }
    assert forall|a: i64|
        new_a.contains(a) <==> {
            ||| old_a.contains(a)
            ||| exists|b: i64| before.hits(b, a)
        } by {
        if new_a.contains(a) {
            let p = choose|p: int| 0 <= p < new_a.len() && new_a[p] == a;
            if p < na {
                assert(old_a[p] == a);
            } else {
                assert(found[p - na] == (new_b[nb + p - na], a));
                assert(found.contains((new_b[nb + p - na], a)));
                assert(before.hits(new_b[nb + p - na], a));
            }
        }
        if old_a.contains(a) {
            let p = choose|p: int| 0 <= p < na && old_a[p] == a;
            assert(new_a[p] == a);
        }
        if exists|b: i64| before.hits(b, a) {
            let b = choose|b: i64| before.hits(b, a);
            assert(found.contains((b, a)));
            let p = choose|p: int| 0 <= p < found.len() && found[p] == (b, a);
            assert(new_a[na + p] == a);
        }
    }
}

/// If a queued bullet is in flight in `x`, one is in `y` too, when both
/// hold the same bullets and the same ids are queued in them.
proof fn lemma_in_flight_carries_over(x: AppView, y: AppView)
    requires
        x.bullets == y.bullets,
        x.bullets_to_remove.to_set() == y.bullets_to_remove.to_set(),
        x.queued_bullet_in_flight(),
    ensures
        y.queued_bullet_in_flight(),
{
    let i = choose|i: int|
        0 <= i < x.bullets_to_remove.len() && x.bullets.contains_key(
            #[trigger] x.bullets_to_remove[i],
        );
    let b = x.bullets_to_remove[i];
    assert(x.bullets_to_remove.contains(b));
    assert(y.bullets_to_remove.to_set().contains(b));
    let j = choose|j: int| 0 <= j < y.bullets_to_remove.len() && y.bullets_to_remove[j] == b;
    assert(y.bullets.contains_key(y.bullets_to_remove[j]));
}

/// Two runs of `detect_collisions` from one state, in whatever order each
/// goes through the bullets and the asteroids, queue the same sets of ids,
/// and working off either pair of queues takes away the same bullets and
/// asteroids and leaves the same ship.
pub proof fn lemma_detection_order_free(before: AppView, x: AppView, y: AppView)
    requires
        x.detected_from(before),
        y.detected_from(before),
    ensures
        x.bullets_to_remove.to_set() == y.bullets_to_remove.to_set(),
        x.asteroids_to_remove.to_set() == y.asteroids_to_remove.to_set(),
        x.after_removals().bullets == y.after_removals().bullets,
        x.after_removals().asteroids == y.after_removals().asteroids,
        x.after_removals().ship == y.after_removals().ship,
{
    lemma_detection_queues(before, x);
    lemma_detection_queues(before, y);
    assert(x.bullets_to_remove.to_set() =~= y.bullets_to_remove.to_set());
    assert(x.asteroids_to_remove.to_set() =~= y.asteroids_to_remove.to_set());
    if x.queued_bullet_in_flight() {
        lemma_in_flight_carries_over(x, y);
    }
    if y.queued_bullet_in_flight() {
        lemma_in_flight_carries_over(y, x);
    }
}

/// Without bullets nothing is hit: `detect_collisions` leaves a game in
/// which no bullet is in flight as it is.
pub proof fn lemma_no_bullets_no_hits(before: AppView, after: AppView)
    requires
        before.bullets.dom() =~= Set::<i64>::empty(),
        after.detected_from(before),
    ensures
        after == before,
{
    let found = after.new_hits(before);
    if found.len() > 0 {
        assert(found.contains(found[0]));
        assert(before.hits(found[0].0, found[0].1));
    }
    assert(after.bullets_to_remove =~= before.bullets_to_remove);
    assert(after.asteroids_to_remove =~= before.asteroids_to_remove);
}

} // verus!
