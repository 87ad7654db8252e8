//! The world: the ship, the bullets and the asteroids, and what one tick
//! does to them.
//!
//! [`App`] is the state that runs; [`AppView`] is the same state as a
//! mathematical value, and every step of the game is stated as a function
//! or a relation on views. A tick culls the spent bullets, works off the
//! hits that were queued, applies the controls, lets the ship fire, and
//! updates the ship, the asteroids and the bullets. Looking for hits is a
//! step of its own, taken once a frame has been drawn.

use std::collections::HashMap;
use vstd::prelude::*;
use vstd::std_specs::iter::IteratorSpec;
use crate::asteroid::{Asteroid, AsteroidStats};
use crate::bullet::Bullet;
use crate::collision::{collides, spec_collides};
use crate::controls::ButtonStates;
use crate::fixed::Fixed;
use crate::positioned::{spec_world_position, Positioned, VIEW_SIZE};
use crate::random::random_between;
use crate::ship::Ship;
use crate::transform::{Rotation, Transform, Vec2};

verus! {

broadcast use vstd::std_specs::hash::group_hash_axioms;

/// Lowest speed of a new asteroid on either axis, in billionths of a pixel
/// per second: 0.2.
pub const MIN_SPEED: i64 = 200_000_000;

/// The speed that a new asteroid stays below on either axis, in billionths
/// of a pixel per second: 0.8.
pub const MAX_SPEED: i64 = 800_000_000;

/// Lowest coordinate at which an asteroid is set down when the game starts,
/// in billionths of a pixel: 50.
pub const START_MIN: i64 = 50_000_000_000;

/// The coordinate that an asteroid stays below when it is set down at the
/// start of the game, in billionths of a pixel: 412.
pub const START_MAX: i64 = 412_000_000_000;

/// Side of an asteroid at the start of the game, in pixels.
pub const START_SIZE: i32 = 100;

/// The state of the game.
///
/// Bullets and asteroids are kept by id. Each kind has a counter that hands
/// out the ids, so that an id is never used twice. Hits that were found are
/// queued, and the queues are worked off at the start of the next tick.
pub struct App {
    ship: Ship,
    bullets: HashMap<i64, Bullet>,
    next_bullet_id: i64,
    asteroids: HashMap<i64, Asteroid>,
    next_asteroid_id: i64,
    bullets_to_remove: Vec<i64>,
    asteroids_to_remove: Vec<i64>,
}

/// The state of the game as a mathematical value.
pub struct AppView {
    pub ship: Ship,
    pub bullets: Map<i64, Bullet>,
    pub next_bullet_id: i64,
    pub asteroids: Map<i64, Asteroid>,
    pub next_asteroid_id: i64,
    pub bullets_to_remove: Seq<i64>,
    pub asteroids_to_remove: Seq<i64>,
}

impl View for App {
    type V = AppView;

    closed spec fn view(&self) -> AppView {
        AppView {
            ship: self.ship,
            bullets: self.bullets@,
            next_bullet_id: self.next_bullet_id,
            asteroids: self.asteroids@,
            next_asteroid_id: self.next_asteroid_id,
            bullets_to_remove: self.bullets_to_remove@,
            asteroids_to_remove: self.asteroids_to_remove@,
        }
    }
}

/// Whether both components of `v` are speeds that a new asteroid may have.
pub open spec fn spec_speed_in_range(v: Vec2) -> bool {
    &&& MIN_SPEED <= v.x.raw < MAX_SPEED
    &&& MIN_SPEED <= v.y.raw < MAX_SPEED
}

/// An asteroid of the starting size whose corner is set down at `place`, in
/// pixels from the upper left corner of the view.
pub open spec fn spec_starting_stats(place: Vec2) -> AsteroidStats {
    AsteroidStats {
        transform: Transform::viewport(VIEW_SIZE, VIEW_SIZE).trans(place.x, place.y),
        width: Fixed::from_int(START_SIZE),
        height: Fixed::from_int(START_SIZE),
    }
}

/// The ship after the controls have been applied for `dt` seconds: it turns
/// left or right if exactly one of the two is held, and then moves forward
/// if `up` is held. `spin` is the rotation by the angle that the ship turns
/// by in `dt` seconds.
pub open spec fn spec_steered(
    ship: Ship,
    dt: Fixed,
    controls: ButtonStates,
    spin: Rotation,
) -> Ship {
    let turned = if controls.left && !controls.right {
        ship.after_rotate_left(dt, spin)
    } else if controls.right && !controls.left {
        ship.after_rotate_right(dt, spin)
    } else {
        ship
    };
    if controls.up {
        turned.after_move_fwd(dt)
    } else {
        turned
    }
}

/// What an asteroid leaves when it is hit, as a sequence: its two fragments,
/// or nothing.
pub open spec fn fragment_seq(a: Asteroid) -> Seq<AsteroidStats> {
    match a.fragments() {
        Some((left, right)) => seq![left, right],
        None => Seq::empty(),
    }
}

/// The fragments that the asteroids of `m` named in `queue` leave, in the
/// order of the queue. An id counts where it stands first in the queue, and
/// only if `m` holds an asteroid under it.
pub open spec fn fragments_of(m: Map<i64, Asteroid>, queue: Seq<i64>) -> Seq<AsteroidStats>
    decreases queue.len(),
{
    if queue.len() == 0 {
        Seq::empty()
    } else {
        let earlier = queue.drop_last();
        let id = queue.last();
        if m.contains_key(id) && !earlier.contains(id) {
            fragments_of(m, earlier) + fragment_seq(m[id])
        } else {
            fragments_of(m, earlier)
        }
    }
}

/// Whether `a` is the asteroid that comes of the fragment `part` under the
/// id `id`: it has the fragment's transform and sides, and a velocity in
/// the range of new asteroids.
pub open spec fn is_fragment(a: Asteroid, id: int, part: AsteroidStats) -> bool {
    &&& a.id == id
    &&& a.transform == part.transform
    &&& a.width == part.width
    &&& a.height == part.height
    &&& spec_speed_in_range(a.velocity)
}

/// No more than two fragments are due for each id in the queue, and every
/// fragment has positive sides.
pub proof fn lemma_fragments_of(m: Map<i64, Asteroid>, queue: Seq<i64>)
    ensures
        fragments_of(m, queue).len() <= 2 * queue.len(),
        forall|i: int|
            0 <= i < fragments_of(m, queue).len() ==> {
                &&& (#[trigger] fragments_of(m, queue)[i]).width.raw > 0
                &&& fragments_of(m, queue)[i].height.raw > 0
            },
    decreases queue.len(),
{
    if queue.len() > 0 {
        lemma_fragments_of(m, queue.drop_last());
    }
}

impl AppView {
    /// The invariant of the game: the ship is well formed; every bullet and
    /// every asteroid is kept under its own id; every id in use is below
    /// the counter of its kind, so that the ids to come are fresh; and every
    /// asteroid has positive sides.
    pub open spec fn wf(self) -> bool {
        &&& self.ship.wf()
        &&& self.next_bullet_id >= 0
        &&& self.next_asteroid_id >= 0
        &&& self.bullets.dom().finite()
        &&& self.asteroids.dom().finite()
        &&& forall|k: i64| #[trigger]
            self.bullets.contains_key(k) ==> {
                &&& self.bullets[k].id == k
                &&& 0 <= k < self.next_bullet_id
            }
        &&& forall|k: i64| #[trigger]
            self.asteroids.contains_key(k) ==> {
                &&& self.asteroids[k].id == k
                &&& 0 <= k < self.next_asteroid_id
                &&& self.asteroids[k].wf()
            }
    }

    /// A new game in a window of the given size: the ship in the centre,
    /// nothing else.
    pub open spec fn initial(win_width: i32, win_height: i32) -> AppView {
        AppView {
            ship: Ship::new(win_width, win_height),
            bullets: Map::empty(),
            next_bullet_id: 0,
            asteroids: Map::empty(),
            next_asteroid_id: 0,
            bullets_to_remove: Seq::empty(),
            asteroids_to_remove: Seq::empty(),
        }
    }

    /// The bullet that the ship fires next.
    pub open spec fn next_bullet(self) -> Bullet {
        Bullet {
            id: self.next_bullet_id,
            transform: self.ship.transform.trans(
                self.ship.width.neg().half(),
                self.ship.height.neg().half(),
            ),
            lifetime: Fixed::from_int(0),
        }
    }

    /// The state after `shoot`.
    pub open spec fn after_shoot(self) -> AppView {
        AppView {
            bullets: self.bullets.insert(self.next_bullet_id, self.next_bullet()),
            next_bullet_id: (self.next_bullet_id + 1) as i64,
            ship: Ship { last_shot_counter: self.ship.shoot_cooldown, ..self.ship },
            ..self
        }
    }

    /// The state after an asteroid with the given stats and velocity has
    /// come into the game.
    pub open spec fn after_spawn(self, stats: AsteroidStats, velocity: Vec2) -> AppView {
        AppView {
            asteroids: self.asteroids.insert(
                self.next_asteroid_id,
                Asteroid {
                    id: self.next_asteroid_id,
                    transform: stats.transform,
                    width: stats.width,
                    height: stats.height,
                    velocity,
                },
            ),
            next_asteroid_id: (self.next_asteroid_id + 1) as i64,
            ..self
        }
    }

    /// The ship with its weapon ready again.
    pub open spec fn ship_reloaded(self) -> Ship {
        Ship { last_shot_counter: Fixed::from_int(0), ..self.ship }
    }

    /// The ids of the bullets that are spent.
    pub open spec fn spent_bullets(self) -> Set<i64> {
        Set::new(|k: i64| self.bullets.contains_key(k) && self.bullets[k].is_spent())
    }

    /// The state after `cull_expired_bullets`: the spent bullets are gone,
    /// and if there was one, the weapon is ready again.
    pub open spec fn after_cull_expired(self) -> AppView {
        AppView {
            bullets: self.bullets.remove_keys(self.spent_bullets()),
            ship: if exists|k: i64| self.spent_bullets().contains(k) {
                self.ship_reloaded()
            } else {
                self.ship
            },
            ..self
        }
    }

    /// Whether a bullet that is queued for removal is still in flight.
    pub open spec fn queued_bullet_in_flight(self) -> bool {
        exists|i: int|
            0 <= i < self.bullets_to_remove.len() && self.bullets.contains_key(
                #[trigger] self.bullets_to_remove[i],
            )
    }

    /// The state after the queues have been worked off, before any fragment
    /// has come into the game: every queued bullet and asteroid is gone, the
    /// queues are empty, and if a queued bullet was still in flight the
    /// weapon is ready again. An id that is queued twice, or that is no
    /// longer in use, does no harm.
    pub open spec fn after_removals(self) -> AppView {
        AppView {
            bullets: self.bullets.remove_keys(self.bullets_to_remove.to_set()),
            ship: if self.queued_bullet_in_flight() {
                self.ship_reloaded()
            } else {
                self.ship
            },
            asteroids: self.asteroids.remove_keys(self.asteroids_to_remove.to_set()),
            bullets_to_remove: Seq::empty(),
            asteroids_to_remove: Seq::empty(),
            ..self
        }
    }

    /// The fragments that the queued asteroids leave, in the order of the
    /// queue.
    pub open spec fn fragments_due(self) -> Seq<AsteroidStats> {
        fragments_of(self.asteroids, self.asteroids_to_remove)
    }

    /// Whether the counter of asteroid ids has room for two fragments of
    /// every queued asteroid.
    pub open spec fn has_room_for_fragments(self) -> bool {
        self.next_asteroid_id + 2 * self.asteroids_to_remove.len() <= i64::MAX
    }

    /// Whether `self` is a state that `cull_collided_objects` may leave
    /// when it starts from `before`. All of it is fixed by `before` but the
    /// velocities of the fragments, which are drawn at random: the queued
    /// bullets and asteroids are gone, and each fragment that is due has
    /// come into the game under the next free id, in the order of the
    /// queue, with a velocity in the range of new asteroids.
    pub open spec fn culled_from(self, before: AppView) -> bool {
        let base = before.after_removals();
        let parts = before.fragments_due();
        let first = before.next_asteroid_id;
        &&& self.ship == base.ship
        &&& self.bullets == base.bullets
        &&& self.next_bullet_id == base.next_bullet_id
        &&& self.bullets_to_remove == base.bullets_to_remove
        &&& self.asteroids_to_remove == base.asteroids_to_remove
        &&& self.next_asteroid_id == first + parts.len()
        &&& forall|k: i64| #[trigger]
            self.asteroids.contains_key(k) <==> {
                ||| base.asteroids.contains_key(k)
                ||| first <= k < first + parts.len()
            }
        &&& forall|k: i64| #[trigger]
            base.asteroids.contains_key(k) ==> self.asteroids[k] == base.asteroids[k]
        &&& forall|i: int|
            0 <= i < parts.len() ==> is_fragment(
                #[trigger] self.asteroids[(first + i) as i64],
                first + i,
                parts[i],
            )
    }

    /// Whether the bullet `b` hits the asteroid `a`: both are in the game,
    /// and the bullet's position is within reach of the disc about the
    /// asteroid's position whose radius is half the asteroid's width.
    pub open spec fn hits(self, b: i64, a: i64) -> bool {
        &&& self.bullets.contains_key(b)
        &&& self.asteroids.contains_key(a)
        &&& spec_collides(
            spec_world_position(self.bullets[b].anchor(), self.bullets[b].transform),
            spec_world_position(self.asteroids[a].anchor(), self.asteroids[a].transform),
            self.asteroids[a].width.half(),
        )
    }

    /// The pairs of a bullet id and an asteroid id that were queued since
    /// `before`.
    pub open spec fn new_hits(self, before: AppView) -> Seq<(i64, i64)> {
        Seq::new(
            (self.bullets_to_remove.len() - before.bullets_to_remove.len()) as nat,
            |p: int|
                (
                    self.bullets_to_remove[before.bullets_to_remove.len() + p],
                    self.asteroids_to_remove[before.asteroids_to_remove.len() + p],
                ),
        )
    }

    /// Whether `self` is a state that `detect_collisions` may leave when it
    /// starts from `before`: nothing has changed but the queues, which have
    /// grown at their ends by the pairs of a bullet and an asteroid that
    /// hit each other, every such pair once. The order of the new pairs is
    /// left open.
    pub open spec fn detected_from(self, before: AppView) -> bool {
        &&& self == (AppView {
            bullets_to_remove: self.bullets_to_remove,
            asteroids_to_remove: self.asteroids_to_remove,
            ..before
        })
        &&& before.bullets_to_remove.is_prefix_of(self.bullets_to_remove)
        &&& before.asteroids_to_remove.is_prefix_of(self.asteroids_to_remove)
        &&& self.bullets_to_remove.len() - before.bullets_to_remove.len()
            == self.asteroids_to_remove.len() - before.asteroids_to_remove.len()
        &&& self.new_hits(before).no_duplicates()
        &&& forall|b: i64, a: i64| #[trigger]
            self.new_hits(before).contains((b, a)) <==> before.hits(b, a)
    }

    /// Whether the controls ask for a shot and the weapon is ready.
    pub open spec fn fires(self, controls: ButtonStates) -> bool {
        controls.fire && self.ship.last_shot_counter.raw <= 0
    }

    /// The state after `advance`: the ship is steered; if the controls ask
    /// for a shot and the weapon is ready, it fires; then the ship, every
    /// asteroid and every bullet, the new one too, is updated by `dt`.
    pub open spec fn advanced(
        self,
        dt: Fixed,
        controls: ButtonStates,
        spin: Rotation,
        heading: Rotation,
    ) -> AppView {
        let steered = AppView { ship: spec_steered(self.ship, dt, controls, spin), ..self };
        let fired = if steered.fires(controls) {
            steered.after_shoot()
        } else {
            steered
        };
        AppView {
            ship: fired.ship.after_update(dt, heading),
            asteroids: fired.asteroids.map_values(|a: Asteroid| a.after_update(dt)),
            bullets: fired.bullets.map_values(|b: Bullet| b.after_update(dt)),
            ..fired
        }
    }

    /// Whether `self` is a state that one tick may leave when it starts
    /// from `before`: the spent bullets are culled, the queued hits are
    /// worked off, and the game is advanced from the state that this
    /// leaves.
    pub open spec fn ticked_from(
        self,
        before: AppView,
        dt: Fixed,
        controls: ButtonStates,
        spin: Rotation,
        heading: Rotation,
    ) -> bool {
        exists|mid: AppView|
            {
                &&& #[trigger] mid.culled_from(before.after_cull_expired())
                &&& self == mid.advanced(dt, controls, spin, heading)
            }
    }
}

/// Whether `ids` names every key of `m`, each once.
spec fn lists_keys<V>(ids: Seq<i64>, m: Map<i64, V>) -> bool {
    &&& ids.no_duplicates()
    &&& forall|j: int| 0 <= j < ids.len() ==> m.contains_key(#[trigger] ids[j])
    &&& forall|k: i64| #[trigger] m.contains_key(k) ==> ids.contains(k)
}

/// The ids under which `m` holds a value, each once, in the order in which
/// the map hands them out.
fn key_list<V>(m: &HashMap<i64, V>) -> (ids: Vec<i64>)
    ensures
        lists_keys(ids@, m@),
{
    let mut ids: Vec<i64> = Vec::new();
    for k in it: m.keys()
        invariant
            ids@.len() == it.index(),
            forall|j: int| 0 <= j < ids@.len() ==> ids@[j] == *it.seq()[j],
    {
        ids.push(*k);
    }
    proof {
        let handed = m.keys().remaining();
        assert(ids@ =~= handed.unref());
        assert(handed.unref().to_set() =~= m@.dom());
        assert forall|i: int, j: int|
            0 <= i < handed.len() && 0 <= j < handed.len() && i != j implies handed.unref()[i]
            != handed.unref()[j] by {
            assert(handed[i] != handed[j]);
        }
        assert forall|k: i64| m@.contains_key(k) implies ids@.contains(k) by {
            assert(ids@.to_set().contains(k));
        }
    }
    ids
}

/// Whether `now` is `start` with `f` applied to the values under the first
/// `done` of the keys that `ids` names.
spec fn updated_so_far<V>(
    now: Map<i64, V>,
    start: Map<i64, V>,
    ids: Seq<i64>,
    done: int,
    f: spec_fn(V) -> V,
) -> bool {
    &&& now.dom() =~= start.dom()
    &&& forall|j: int|
        0 <= j < ids.len() ==> now[#[trigger] ids[j]] == if j < done {
            f(start[ids[j]])
        } else {
            start[ids[j]]
        }
}

/// Once `f` has been applied under every key, the map is `start` with `f`
/// applied to all its values.
proof fn lemma_updated_all<V>(
    now: Map<i64, V>,
    start: Map<i64, V>,
    ids: Seq<i64>,
    f: spec_fn(V) -> V,
)
    requires
        lists_keys(ids, start),
        updated_so_far(now, start, ids, ids.len() as int, f),
    ensures
        now == start.map_values(f),
{
    let goal = start.map_values(f);
    assert forall|k: i64| goal.contains_key(k) implies now[k] == goal[k] by {
        let j = choose|j: int| 0 <= j < ids.len() && ids[j] == k;
        assert(now[ids[j]] == f(start[ids[j]]));
    }
    assert(now =~= goal);
}

/// Whether the pair of places `m` comes before the pair `(i, j)` when the
/// first place counts more.
spec fn scanned(m: (int, int), i: int, j: int) -> bool {
    m.0 < i || (m.0 == i && m.1 < j)
}

/// What holds while `detect_collisions` runs: the bullets up to place `i`
/// have been held against every asteroid, and the bullet at place `i`
/// against the asteroids up to place `j`. `marks` holds the places of the
/// pairs that were queued.
spec fn scan_holds(
    before: AppView,
    now: AppView,
    b_ids: Seq<i64>,
    a_ids: Seq<i64>,
    marks: Seq<(int, int)>,
    i: int,
    j: int,
) -> bool {
    let nb = before.bullets_to_remove.len() as int;
    let na = before.asteroids_to_remove.len() as int;
    &&& now == (AppView {
        bullets_to_remove: now.bullets_to_remove,
        asteroids_to_remove: now.asteroids_to_remove,
        ..before
    })
    &&& now.bullets_to_remove.len() == nb + marks.len()
    &&& now.asteroids_to_remove.len() == na + marks.len()
    &&& before.bullets_to_remove.is_prefix_of(now.bullets_to_remove)
    &&& before.asteroids_to_remove.is_prefix_of(now.asteroids_to_remove)
    &&& marks.no_duplicates()
    &&& forall|p: int|
        0 <= p < marks.len() ==> {
            let m = #[trigger] marks[p];
            &&& 0 <= m.0 < b_ids.len()
            &&& 0 <= m.1 < a_ids.len()
            &&& scanned(m, i, j)
            &&& before.hits(b_ids[m.0], a_ids[m.1])
            &&& now.bullets_to_remove[nb + p] == b_ids[m.0]
            &&& now.asteroids_to_remove[na + p] == a_ids[m.1]
        }
    &&& forall|x: int, y: int|
        {
            &&& 0 <= x < b_ids.len()
            &&& 0 <= y < a_ids.len()
            &&& scanned((x, y), i, j)
            &&& before.hits(b_ids[x], a_ids[y])
        } ==> #[trigger] marks.contains((x, y))
}

/// The scan has come one asteroid further without a hit.
proof fn lemma_scan_miss(
    before: AppView,
    now: AppView,
    b_ids: Seq<i64>,
    a_ids: Seq<i64>,
    marks: Seq<(int, int)>,
    i: int,
    j: int,
)
    requires
        scan_holds(before, now, b_ids, a_ids, marks, i, j),
        0 <= i < b_ids.len(),
        0 <= j < a_ids.len(),
        !before.hits(b_ids[i], a_ids[j]),
    ensures
        scan_holds(before, now, b_ids, a_ids, marks, i, j + 1),
{
    assert forall|x: int, y: int|
        {
            &&& 0 <= x < b_ids.len()
            &&& 0 <= y < a_ids.len()
            &&& scanned((x, y), i, j + 1)
            &&& before.hits(b_ids[x], a_ids[y])
        } implies #[trigger] marks.contains((x, y)) by {
        assert(scanned((x, y), i, j));
    }
    assert forall|p: int| 0 <= p < marks.len() implies scanned(#[trigger] marks[p], i, j + 1) by {
        assert(scanned(marks[p], i, j));
    }
}

/// The scan has come one asteroid further with a hit, which was queued.
proof fn lemma_scan_hit(
    before: AppView,
    then: AppView,
    now: AppView,
    b_ids: Seq<i64>,
    a_ids: Seq<i64>,
    marks: Seq<(int, int)>,
    i: int,
    j: int,
)
    requires
        scan_holds(before, then, b_ids, a_ids, marks, i, j),
        0 <= i < b_ids.len(),
        0 <= j < a_ids.len(),
        before.hits(b_ids[i], a_ids[j]),
        now == (AppView {
            bullets_to_remove: then.bullets_to_remove.push(b_ids[i]),
            asteroids_to_remove: then.asteroids_to_remove.push(a_ids[j]),
            ..then
        }),
    ensures
        scan_holds(before, now, b_ids, a_ids, marks.push((i, j)), i, j + 1),
{
    let grown = marks.push((i, j));
    if marks.contains((i, j)) {
        let p = choose|p: int| 0 <= p < marks.len() && marks[p] == (i, j);
        assert(scanned(marks[p], i, j));
    }
    assert forall|x: int, y: int|
        {
            &&& 0 <= x < b_ids.len()
            &&& 0 <= y < a_ids.len()
            &&& scanned((x, y), i, j + 1)
            &&& before.hits(b_ids[x], a_ids[y])
        } implies #[trigger] grown.contains((x, y)) by {
        if x == i && y == j {
            assert(grown[marks.len() as int] == (x, y));
        } else {
            assert(scanned((x, y), i, j));
            assert(marks.contains((x, y)));
            let p = choose|p: int| 0 <= p < marks.len() && marks[p] == (x, y);
            assert(grown[p] == (x, y));
        }
    }
    assert forall|p: int| 0 <= p < grown.len() implies scanned(#[trigger] grown[p], i, j + 1) by {
        if p < marks.len() {
            assert(scanned(marks[p], i, j));
        }
    }
}

/// The scan is through with one bullet and goes on to the next.
proof fn lemma_scan_next_bullet(
    before: AppView,
    now: AppView,
    b_ids: Seq<i64>,
    a_ids: Seq<i64>,
    marks: Seq<(int, int)>,
    i: int,
)
    requires
        scan_holds(before, now, b_ids, a_ids, marks, i, a_ids.len() as int),
    ensures
        scan_holds(before, now, b_ids, a_ids, marks, i + 1, 0),
{
    assert forall|x: int, y: int|
        {
            &&& 0 <= x < b_ids.len()
            &&& 0 <= y < a_ids.len()
            &&& scanned((x, y), i + 1, 0)
            &&& before.hits(b_ids[x], a_ids[y])
        } implies #[trigger] marks.contains((x, y)) by {
        assert(scanned((x, y), i, a_ids.len() as int));
    }
    assert forall|p: int| 0 <= p < marks.len() implies scanned(#[trigger] marks[p], i + 1, 0) by {
        assert(scanned(marks[p], i, a_ids.len() as int));
    }
}

/// When the scan is through with every bullet, what was queued is what
/// `detected_from` asks for.
proof fn lemma_scan_done(
    before: AppView,
    now: AppView,
    b_ids: Seq<i64>,
    a_ids: Seq<i64>,
    marks: Seq<(int, int)>,
)
    requires
        lists_keys(b_ids, before.bullets),
        lists_keys(a_ids, before.asteroids),
        scan_holds(before, now, b_ids, a_ids, marks, b_ids.len() as int, 0),
    ensures
        now.detected_from(before),
{
    let found = now.new_hits(before);
    assert forall|p: int| 0 <= p < found.len() implies #[trigger] found[p] == (
        b_ids[marks[p].0],
        a_ids[marks[p].1],
    ) by {}
    assert forall|p: int, q: int|
        0 <= p < found.len() && 0 <= q < found.len() && p != q implies found[p] != found[q] by {
        assert(marks[p] != marks[q]);
    }
    assert forall|b: i64, a: i64| #[trigger]
        found.contains((b, a)) <==> before.hits(b, a) by {
        if before.hits(b, a) {
            let x = choose|x: int| 0 <= x < b_ids.len() && b_ids[x] == b;
            let y = choose|y: int| 0 <= y < a_ids.len() && a_ids[y] == a;
            assert(scanned((x, y), b_ids.len() as int, 0));
            assert(marks.contains((x, y)));
            let p = choose|p: int| 0 <= p < marks.len() && marks[p] == (x, y);
            assert(found[p] == (b, a));
        }
        if found.contains((b, a)) {
            let p = choose|p: int| 0 <= p < found.len() && found[p] == (b, a);
            assert(before.hits(b_ids[marks[p].0], a_ids[marks[p].1]));
        }
    }
}

/// Taking one more id of the queue into account takes it out of the keys
/// that are left.
proof fn lemma_take_one_more(queue: Seq<i64>, n: int)
    requires
        0 <= n < queue.len(),
    ensures
        queue.take(n + 1).drop_last() == queue.take(n),
        queue.take(n + 1).last() == queue[n],
        queue.take(n + 1).to_set() == queue.take(n).to_set().insert(queue[n]),
{
    assert(queue.take(n + 1).drop_last() =~= queue.take(n));
    assert(queue.take(n + 1) =~= queue.take(n).push(queue[n]));
    queue.take(n).lemma_push_to_set_commute(queue[n]);
}

impl App {
    /// A new game in a window of the given size.
    pub fn new(win_width: i32, win_height: i32) -> (app: App)
        requires
            win_width > 0,
            win_height > 0,
        ensures
            app@ == AppView::initial(win_width, win_height),
            app@.wf(),
    {
        App {
            ship: Ship::new(win_width, win_height),
            bullets: HashMap::new(),
            next_bullet_id: 0,
            asteroids: HashMap::new(),
            next_asteroid_id: 0,
            bullets_to_remove: Vec::new(),
            asteroids_to_remove: Vec::new(),
        }
    }

    /// Fires a bullet from the ship: it starts at the ship's transform, set
    /// off by half the hull, with no age and a fresh id. The cooldown starts
    /// to run. Whether firing is allowed is for the caller to check.
    pub fn shoot(&mut self)
        requires
            old(self)@.wf(),
            old(self)@.next_bullet_id < i64::MAX,
        ensures
            final(self)@ == old(self)@.after_shoot(),
            final(self)@.wf(),
    {
        let new_bullet = Bullet {
            id: self.next_bullet_id,
            transform: self.ship.transform.trans(
                self.ship.width.neg().half(),
                self.ship.height.neg().half(),
            ),
            lifetime: Fixed::from_int(0),
        };
        self.bullets.insert(new_bullet.id, new_bullet);
        self.next_bullet_id += 1;
        self.ship.last_shot_counter = self.ship.shoot_cooldown;
    }

    /// Brings an asteroid with the given stats and velocity into the game,
    /// under a fresh id.
    pub fn spawn_asteroid(&mut self, stats: &AsteroidStats, velocity: Vec2)
        requires
            old(self)@.wf(),
            old(self)@.next_asteroid_id < i64::MAX,
            stats.width.raw > 0,
            stats.height.raw > 0,
        ensures
            final(self)@ == old(self)@.after_spawn(*stats, velocity),
            final(self)@.wf(),
    {
        let new_ast = Asteroid {
            id: self.next_asteroid_id,
            transform: stats.transform,
            width: stats.width,
            height: stats.height,
            velocity,
        };
        self.asteroids.insert(self.next_asteroid_id, new_ast);
        self.next_asteroid_id += 1;
    }

    /// Brings an asteroid with the given stats into the game, under a fresh
    /// id and with a velocity drawn at random: each component lies between
    /// `MIN_SPEED` and `MAX_SPEED`, the upper end left out.
    pub fn add_asteroids(&mut self, stats: &AsteroidStats)
        requires
            old(self)@.wf(),
            old(self)@.next_asteroid_id < i64::MAX,
            stats.width.raw > 0,
            stats.height.raw > 0,
        ensures
            final(self)@.asteroids.contains_key(old(self)@.next_asteroid_id),
            spec_speed_in_range(final(self)@.asteroids[old(self)@.next_asteroid_id].velocity),
            final(self)@ == old(self)@.after_spawn(
                *stats,
                final(self)@.asteroids[old(self)@.next_asteroid_id].velocity,
            ),
            final(self)@.wf(),
    {
        let rand_x_vel = Fixed::from_raw(random_between(MIN_SPEED, MAX_SPEED));
        let rand_y_vel = Fixed::from_raw(random_between(MIN_SPEED, MAX_SPEED));
        self.spawn_asteroid(stats, Vec2 { x: rand_x_vel, y: rand_y_vel });
    }

    /// Brings one of the asteroids that a game starts with into the game:
    /// it has the starting size, a velocity drawn at random as in
    /// `add_asteroids`, and its corner is set down at a place that is drawn
    /// at random too, each coordinate between `START_MIN` and `START_MAX`,
    /// the upper end left out. Returns the place.
    pub fn add_starting_asteroid(&mut self) -> (place: Vec2)
        requires
            old(self)@.wf(),
            old(self)@.next_asteroid_id < i64::MAX,
        ensures
            START_MIN <= place.x.raw < START_MAX,
            START_MIN <= place.y.raw < START_MAX,
            final(self)@.asteroids.contains_key(old(self)@.next_asteroid_id),
            spec_speed_in_range(final(self)@.asteroids[old(self)@.next_asteroid_id].velocity),
            final(self)@ == old(self)@.after_spawn(
                spec_starting_stats(place),
                final(self)@.asteroids[old(self)@.next_asteroid_id].velocity,
            ),
            final(self)@.wf(),
    {
        let x = Fixed::from_raw(random_between(START_MIN, START_MAX));
        let y = Fixed::from_raw(random_between(START_MIN, START_MAX));
        let starting_asteroid = AsteroidStats {
            transform: Transform::viewport(VIEW_SIZE, VIEW_SIZE).trans(x, y),
            width: Fixed::from_int(START_SIZE),
            height: Fixed::from_int(START_SIZE),
        };
        self.add_asteroids(&starting_asteroid);
        Vec2 { x, y }
    }

    /// Takes away every bullet that has left the view or has lived for 1.2
    /// seconds. If there was one, the weapon is ready again at once.
    pub fn cull_expired_bullets(&mut self)
        requires
            old(self)@.wf(),
        ensures
            final(self)@ == old(self)@.after_cull_expired(),
            final(self)@.wf(),
    {
        let ids = key_list(&self.bullets);
        let ghost start = self@;
        let mut i: usize = 0;
        while i < ids.len()
            invariant
                i <= ids.len(),
                start.wf(),
                lists_keys(ids@, start.bullets),
                forall|k: i64| #[trigger]
                    self.bullets@.contains_key(k) ==> {
                        &&& start.bullets.contains_key(k)
                        &&& self.bullets@[k] == start.bullets[k]
                    },
                forall|k: i64|
                    start.bullets.contains_key(k) && !(#[trigger] self.bullets@.contains_key(k))
                        ==> start.bullets[k].is_spent(),
                forall|j: int|
                    0 <= j < i && start.bullets[#[trigger] ids@[j]].is_spent()
                        ==> !self.bullets@.contains_key(ids@[j]),
                forall|j: int|
                    i <= j < ids@.len() ==> self.bullets@.contains_key(#[trigger] ids@[j]),
                self.ship == if exists|j: int|
                    0 <= j < i && start.bullets[#[trigger] ids@[j]].is_spent() {
                    start.ship_reloaded()
                } else {
                    start.ship
                },
                self@ == (AppView { bullets: self.bullets@, ship: self.ship, ..start }),
            decreases ids.len() - i,
        {
            let id = ids[i];
            let spent = match self.bullets.get(&id) {
                Some(bullet) => bullet.is_spent(),
                None => false,
            };
            if spent {
                self.bullets.remove(&id);
                self.ship.last_shot_counter = Fixed::from_int(0);
            }
            i += 1;
        }
        proof {
            let left = self.bullets@;
            let spent = start.spent_bullets();
            assert forall|k: i64| spent.contains(k) implies !left.contains_key(k) by {
                let j = choose|j: int| 0 <= j < ids@.len() && ids@[j] == k;
            }
            assert(self.bullets@ =~= start.after_cull_expired().bullets);
            if exists|k: i64| start.spent_bullets().contains(k) {
                let k = choose|k: i64| start.spent_bullets().contains(k);
                let j = choose|j: int| 0 <= j < ids@.len() && ids@[j] == k;
                assert(start.bullets[ids@[j]].is_spent());
            }
        }
    }

    /// Works off the queues of hits: takes away every queued bullet and
    /// asteroid that is still there, and empties the queues. Returns the
    /// fragments that the asteroids leave, in the order of the queue.
    fn remove_collided(&mut self) -> (parts: Vec<AsteroidStats>)
        requires
            old(self)@.wf(),
        ensures
            final(self)@ == old(self)@.after_removals(),
            parts@ == old(self)@.fragments_due(),
            final(self)@.wf(),
    {
        let ghost start = self@;
        let mut i: usize = 0;
        while i < self.bullets_to_remove.len()
            invariant
                i <= self.bullets_to_remove.len(),
                start.wf(),
                self.bullets@ =~= start.bullets.remove_keys(
                    start.bullets_to_remove.take(i as int).to_set(),
                ),
                self.ship == if exists|j: int|
                    0 <= j < i && start.bullets.contains_key(
                        #[trigger] start.bullets_to_remove[j],
                    ) {
                    start.ship_reloaded()
                } else {
                    start.ship
                },
                self@ == (AppView { bullets: self.bullets@, ship: self.ship, ..start }),
            decreases self.bullets_to_remove.len() - i,
        {
            let bullet_id = self.bullets_to_remove[i];
            proof {
                let queue = start.bullets_to_remove;
                lemma_take_one_more(queue, i as int);
                if self.bullets@.contains_key(bullet_id) {
                    assert(start.bullets.contains_key(queue[i as int]));
                }
                if !self.bullets@.contains_key(bullet_id) && start.bullets.contains_key(
                    bullet_id,
                ) {
                    let earlier = queue.take(i as int);
                    let j = choose|j: int| 0 <= j < earlier.len() && earlier[j] == bullet_id;
                    assert(start.bullets.contains_key(queue[j]));
                }
            }
            if self.bullets.contains_key(&bullet_id) {
                self.bullets.remove(&bullet_id);
                self.ship.last_shot_counter = Fixed::from_int(0);
            }
            i += 1;
        }
        assert(start.bullets_to_remove.take(i as int) =~= start.bullets_to_remove);
        self.bullets_to_remove = Vec::new();

        let ghost mid = self@;
        let mut parts: Vec<AsteroidStats> = Vec::new();
        let mut n: usize = 0;
        while n < self.asteroids_to_remove.len()
            invariant
                n <= self.asteroids_to_remove.len(),
                self.asteroids@ =~= start.asteroids.remove_keys(
                    start.asteroids_to_remove.take(n as int).to_set(),
                ),
                parts@ == fragments_of(start.asteroids, start.asteroids_to_remove.take(n as int)),
                self@ == (AppView { asteroids: self.asteroids@, ..mid }),
                mid.asteroids_to_remove == start.asteroids_to_remove,
            decreases self.asteroids_to_remove.len() - n,
        {
            let asteroid_id = self.asteroids_to_remove[n];
            proof {
                lemma_take_one_more(start.asteroids_to_remove, n as int);
            }
            let killed = match self.asteroids.get(&asteroid_id) {
                Some(asteroid) => Some(asteroid.fragments()),
                None => None,
            };
            match killed {
                Some(Some((left, right))) => {
                    parts.push(left);
                    parts.push(right);
                    self.asteroids.remove(&asteroid_id);
                },
                Some(None) => {
                    self.asteroids.remove(&asteroid_id);
                },
                None => {},
            }
            assert(parts@ =~= fragments_of(
                start.asteroids,
                start.asteroids_to_remove.take(n + 1),
            ));
            n += 1;
        }
        assert(start.asteroids_to_remove.take(n as int) =~= start.asteroids_to_remove);
        self.asteroids_to_remove = Vec::new();
        parts
    }

    /// Works off the hits that were queued: every queued bullet and
    /// asteroid that is still there is taken away, and an asteroid that is
    /// large enough leaves two fragments of half its width and height, which
    /// come into the game once all the removals are done. If a queued bullet
    /// was still in flight, the weapon is ready again at once.
    pub fn cull_collided_objects(&mut self)
        requires
            old(self)@.wf(),
            old(self)@.has_room_for_fragments(),
        ensures
            final(self)@.culled_from(old(self)@),
            final(self)@.wf(),
    {
        let ghost before = self@;
        let new_asteroids = self.remove_collided();
        let ghost base = self@;
        let ghost first = before.next_asteroid_id;
        proof {
            lemma_fragments_of(before.asteroids, before.asteroids_to_remove);
        }
        let mut i: usize = 0;
        while i < new_asteroids.len()
            invariant
                i <= new_asteroids.len(),
                base.wf(),
                base == before.after_removals(),
                first == before.next_asteroid_id,
                new_asteroids@ == before.fragments_due(),
                first + new_asteroids@.len() <= i64::MAX,
                forall|j: int|
                    0 <= j < new_asteroids@.len() ==> {
                        &&& (#[trigger] new_asteroids@[j]).width.raw > 0
                        &&& new_asteroids@[j].height.raw > 0
                    },
                self@.wf(),
                self@ == (AppView {
                    asteroids: self@.asteroids,
                    next_asteroid_id: self@.next_asteroid_id,
                    ..base
                }),
                self@.next_asteroid_id == first + i,
                forall|k: i64| #[trigger]
                    self@.asteroids.contains_key(k) <==> {
                        ||| base.asteroids.contains_key(k)
                        ||| first <= k < first + i
                    },
                forall|k: i64| #[trigger]
                    base.asteroids.contains_key(k) ==> self@.asteroids[k] == base.asteroids[k],
                forall|j: int|
                    0 <= j < i ==> is_fragment(
                        #[trigger] self@.asteroids[(first + j) as i64],
                        first + j,
                        new_asteroids@[j],
                    ),
            decreases new_asteroids.len() - i,
        {
            self.add_asteroids(&new_asteroids[i]);
            i += 1;
        }
    }

    /// Holds every bullet against every asteroid and queues each pair that
    /// hit each other, for both to be taken away at the start of the next
    /// tick. Nothing is taken away here, and a bullet or an asteroid may be
    /// queued more than once.
    pub fn detect_collisions(&mut self)
        requires
            old(self)@.wf(),
        ensures
            final(self)@.detected_from(old(self)@),
            final(self)@.wf(),
    {
        let ghost before = self@;
        let b_ids = key_list(&self.bullets);
        let a_ids = key_list(&self.asteroids);
        let ghost mut marks: Seq<(int, int)> = Seq::empty();
        let mut i: usize = 0;
        while i < b_ids.len()
            invariant
                i <= b_ids.len(),
                before.wf(),
                lists_keys(b_ids@, before.bullets),
                lists_keys(a_ids@, before.asteroids),
                scan_holds(before, self@, b_ids@, a_ids@, marks, i as int, 0),
            decreases b_ids.len() - i,
        {
            let bullet_id = b_ids[i];
            let bullet: Bullet = *self.bullets.get(&bullet_id).unwrap();
            let bullet_pos = bullet.get_position();
            let mut j: usize = 0;
            while j < a_ids.len()
                invariant
                    i < b_ids.len(),
                    j <= a_ids.len(),
                    before.wf(),
                    bullet_id == b_ids@[i as int],
                    bullet_pos == spec_world_position(
                        before.bullets[bullet_id].anchor(),
                        before.bullets[bullet_id].transform,
                    ),
                    lists_keys(b_ids@, before.bullets),
                    lists_keys(a_ids@, before.asteroids),
                    scan_holds(before, self@, b_ids@, a_ids@, marks, i as int, j as int),
                decreases a_ids.len() - j,
            {
                let asteroid_id = a_ids[j];
                let asteroid: Asteroid = *self.asteroids.get(&asteroid_id).unwrap();
                let centre = asteroid.get_position();
                let radius = asteroid.width.half();
                let ghost then = self@;
                let ghost (x, y) = (i as int, j as int);
                if collides(bullet_pos, centre, radius) {
                    self.bullets_to_remove.push(bullet_id);
                    self.asteroids_to_remove.push(asteroid_id);
                    proof {
                        lemma_scan_hit(before, then, self@, b_ids@, a_ids@, marks, x, y);
                        marks = marks.push((x, y));
                    }
                } else {
                    proof {
                        lemma_scan_miss(before, then, b_ids@, a_ids@, marks, x, y);
                    }
                }
                j += 1;
            }
            proof {
                lemma_scan_next_bullet(before, self@, b_ids@, a_ids@, marks, i as int);
            }
            i += 1;
        }
        proof {
            lemma_scan_done(before, self@, b_ids@, a_ids@, marks);
        }
    }

    /// Updates every asteroid by `dt`.
    fn update_asteroids(&mut self, dt: Fixed)
        requires
            old(self)@.wf(),
        ensures
            final(self)@ == (AppView {
                asteroids: old(self)@.asteroids.map_values(|a: Asteroid| a.after_update(dt)),
                ..old(self)@
            }),
            final(self)@.wf(),
    {
        let ids = key_list(&self.asteroids);
        let ghost start = self@;
        let ghost step = |a: Asteroid| a.after_update(dt);
        let mut i: usize = 0;
        while i < ids.len()
            invariant
                i <= ids.len(),
                start.wf(),
                lists_keys(ids@, start.asteroids),
                step == |a: Asteroid| a.after_update(dt),
                updated_so_far(self.asteroids@, start.asteroids, ids@, i as int, step),
                self@ == (AppView { asteroids: self.asteroids@, ..start }),
            decreases ids.len() - i,
        {
            let id = ids[i];
            let mut asteroid: Asteroid = *self.asteroids.get(&id).unwrap();
            asteroid.update(dt);
            self.asteroids.insert(id, asteroid);
            i += 1;
        }
        proof {
            lemma_updated_all(self.asteroids@, start.asteroids, ids@, step);
        }
    }

    /// Updates every bullet by `dt`.
    fn update_bullets(&mut self, dt: Fixed)
        requires
            old(self)@.wf(),
        ensures
            final(self)@ == (AppView {
                bullets: old(self)@.bullets.map_values(|b: Bullet| b.after_update(dt)),
                ..old(self)@
            }),
            final(self)@.wf(),
    {
        let ids = key_list(&self.bullets);
        let ghost start = self@;
        let ghost step = |b: Bullet| b.after_update(dt);
        let mut i: usize = 0;
        while i < ids.len()
            invariant
                i <= ids.len(),
                start.wf(),
                lists_keys(ids@, start.bullets),
                step == |b: Bullet| b.after_update(dt),
                updated_so_far(self.bullets@, start.bullets, ids@, i as int, step),
                self@ == (AppView { bullets: self.bullets@, ..start }),
            decreases ids.len() - i,
        {
            let id = ids[i];
            let mut bullet: Bullet = *self.bullets.get(&id).unwrap();
            bullet.update(dt);
            self.bullets.insert(id, bullet);
            i += 1;
        }
        proof {
            lemma_updated_all(self.bullets@, start.bullets, ids@, step);
        }
    }

    /// The part of a tick that follows the culling: applies the controls to
    /// the ship for `dt` seconds, fires if `fire` is held and the weapon is
    /// ready, and updates the ship, the asteroids and the bullets.
    ///
    /// `spin` is the rotation by the angle that the ship's `turn_angle(dt)`
    /// gives, and `heading` the rotation by the angle that its
    /// `rotation_after(dt, controls)` gives.
    pub fn advance(
        &mut self,
        dt: Fixed,
        controls: &ButtonStates,
        spin: Rotation,
        heading: Rotation,
    )
        requires
            old(self)@.wf(),
            old(self)@.next_bullet_id < i64::MAX,
        ensures
            final(self)@ == old(self)@.advanced(dt, *controls, spin, heading),
            final(self)@.ship.rotation == old(self)@.ship.rotation_after(dt, controls),
            final(self)@.wf(),
    {
        if controls.left && !controls.right {
            self.ship.rotate_left(dt, spin);
        } else if controls.right && !controls.left {
            self.ship.rotate_right(dt, spin);
        }
        if controls.up {
            self.ship.move_fwd(dt);
        }
        if controls.fire && self.ship.last_shot_counter.le(Fixed::from_int(0)) {
            self.shoot();
        }
        self.ship.update(dt, heading);
        self.update_asteroids(dt);
        self.update_bullets(dt);
    }

    /// One tick of `dt` seconds under the given controls: culls the spent
    /// bullets, works off the queued hits, and advances the game.
    ///
    /// `spin` is the rotation by the angle that the ship's `turn_angle(dt)`
    /// gives, and `heading` the rotation by the angle that its
    /// `rotation_after(dt, controls)` gives.
    pub fn update(
        &mut self,
        dt: Fixed,
        controls: &ButtonStates,
        spin: Rotation,
        heading: Rotation,
    )
        requires
            old(self)@.wf(),
            old(self)@.has_room_for_fragments(),
            old(self)@.next_bullet_id < i64::MAX,
        ensures
            final(self)@.ticked_from(old(self)@, dt, *controls, spin, heading),
            final(self)@.ship.rotation == old(self)@.ship.rotation_after(dt, controls),
            final(self)@.wf(),
    {
        self.cull_expired_bullets();
        self.cull_collided_objects();
        let ghost mid = self@;
        self.advance(dt, controls, spin, heading);
        assert(mid.culled_from(old(self)@.after_cull_expired()));
    }

    /// The ship.
    pub fn ship(&self) -> (ship: Ship)
        ensures
            ship == self@.ship,
    {
        self.ship
    }

    /// The number of bullets in flight.
    pub fn bullet_count(&self) -> (count: usize)
        ensures
            count == self@.bullets.len(),
    {
        self.bullets.len()
    }

    /// The number of asteroids in the game.
    pub fn asteroid_count(&self) -> (count: usize)
        ensures
            count == self@.asteroids.len(),
    {
        self.asteroids.len()
    }

    /// The bullet with the given id, if it is in flight.
    pub fn bullet(&self, id: i64) -> (found: Option<Bullet>)
        ensures
            found == if self@.bullets.contains_key(id) {
                Some(self@.bullets[id])
            } else {
                None
            },
    {
        match self.bullets.get(&id) {
            Some(bullet) => Some(*bullet),
            None => None,
        }
    }

    /// The asteroid with the given id, if it is in the game.
    pub fn asteroid(&self, id: i64) -> (found: Option<Asteroid>)
        ensures
            found == if self@.asteroids.contains_key(id) {
                Some(self@.asteroids[id])
            } else {
                None
            },
    {
        match self.asteroids.get(&id) {
            Some(asteroid) => Some(*asteroid),
            None => None,
        }
    }

    /// The bullets in flight, each once, in no particular order.
    pub fn bullets(&self) -> (all: Vec<Bullet>)
        requires
            self@.wf(),
        ensures
            all@.len() == self@.bullets.len(),
            forall|i: int|
                0 <= i < all@.len() ==> {
                    &&& self@.bullets.contains_key((#[trigger] all@[i]).id)
                    &&& self@.bullets[all@[i].id] == all@[i]
                },
            forall|i: int, j: int| 0 <= i < j < all@.len() ==> all@[i].id != all@[j].id,
            forall|k: i64| self@.bullets.contains_key(k) ==> all@.contains(self@.bullets[k]),
    {
        let ids = key_list(&self.bullets);
        let mut all: Vec<Bullet> = Vec::new();
        let mut i: usize = 0;
        while i < ids.len()
            invariant
                i <= ids.len(),
                lists_keys(ids@, self.bullets@),
                all@.len() == i,
                forall|j: int| 0 <= j < i ==> #[trigger] all@[j] == self.bullets@[ids@[j]],
            decreases ids.len() - i,
        {
            let bullet: Bullet = *self.bullets.get(&ids[i]).unwrap();
            all.push(bullet);
            i += 1;
        }
        proof {
            assert(ids@.to_set() =~= self.bullets@.dom());
            ids@.unique_seq_to_set();
            assert forall|k: i64| self@.bullets.contains_key(k) implies all@.contains(
                self@.bullets[k],
            ) by {
                let j = choose|j: int| 0 <= j < ids@.len() && ids@[j] == k;
                assert(all@[j] == self@.bullets[k]);
            }
        }
        all
    }

    /// The asteroids in the game, each once, in no particular order.
    pub fn asteroids(&self) -> (all: Vec<Asteroid>)
        requires
            self@.wf(),
        ensures
            all@.len() == self@.asteroids.len(),
            forall|i: int|
                0 <= i < all@.len() ==> {
                    &&& self@.asteroids.contains_key((#[trigger] all@[i]).id)
                    &&& self@.asteroids[all@[i].id] == all@[i]
                },
            forall|i: int, j: int| 0 <= i < j < all@.len() ==> all@[i].id != all@[j].id,
            forall|k: i64| self@.asteroids.contains_key(k) ==> all@.contains(self@.asteroids[k]),
    {
        let ids = key_list(&self.asteroids);
        let mut all: Vec<Asteroid> = Vec::new();
        let mut i: usize = 0;
        while i < ids.len()
            invariant
                i <= ids.len(),
                lists_keys(ids@, self.asteroids@),
                all@.len() == i,
                forall|j: int| 0 <= j < i ==> #[trigger] all@[j] == self.asteroids@[ids@[j]],
            decreases ids.len() - i,
        {
            let asteroid: Asteroid = *self.asteroids.get(&ids[i]).unwrap();
            all.push(asteroid);
            i += 1;
        }
        proof {
            assert(ids@.to_set() =~= self.asteroids@.dom());
            ids@.unique_seq_to_set();
            assert forall|k: i64| self@.asteroids.contains_key(k) implies all@.contains(
                self@.asteroids[k],
            ) by {
                let j = choose|j: int| 0 <= j < ids@.len() && ids@[j] == k;
                assert(all@[j] == self@.asteroids[k]);
            }
        }
        all
    }

    /// The ids of the bullets that are queued for removal, in the order in
    /// which they were queued.
    pub fn queued_bullets(&self) -> (ids: Vec<i64>)
        ensures
            ids@ == self@.bullets_to_remove,
    {
        self.bullets_to_remove.clone()
    }

    /// The ids of the asteroids that are queued for removal, in the order in
    /// which they were queued.
    pub fn queued_asteroids(&self) -> (ids: Vec<i64>)
        ensures
            ids@ == self@.asteroids_to_remove,
    {
        self.asteroids_to_remove.clone()
    }

    /// Whether the counters have ids left for one more tick: one for a
    /// bullet, and two for the fragments of every queued asteroid.
    pub fn has_room(&self) -> (room: bool)
        ensures
            room == (self@.has_room_for_fragments() && self@.next_bullet_id < i64::MAX),
    {
        let queued: i128 = self.asteroids_to_remove.len() as i128;
        self.next_bullet_id < i64::MAX && self.next_asteroid_id as i128 + 2 * queued
            <= i64::MAX as i128
    }
}

} // verus!
