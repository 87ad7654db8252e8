use asteroids_core::asteroid::{Asteroid, AsteroidStats};
use asteroids_core::bullet::Bullet;
use asteroids_core::controls::ButtonStates;
use asteroids_core::fixed::Fixed;
use asteroids_core::positioned::Positioned;
use asteroids_core::ship::Ship;
use asteroids_core::transform::{Rotation, Transform, Vec2};
use asteroids_core::world::{App, MAX_SPEED, MIN_SPEED, START_MAX, START_MIN};

fn whole(n: i32) -> Fixed {
    Fixed::from_int(n)
}

fn millis(n: i64) -> Fixed {
    Fixed::from_raw(n * 1_000_000)
}

fn point(x: i32, y: i32) -> Vec2 {
    Vec2::new(whole(x), whole(y))
}

fn screen() -> Transform {
    Transform::viewport(512, 512)
}

fn from_float(x: f64) -> Fixed {
    Fixed::from_raw((x * 1e9).round() as i64)
}

fn to_float(x: Fixed) -> f64 {
    x.raw as f64 / 1e9
}

fn rotation_by(angle: Fixed) -> Rotation {
    let radians = to_float(angle);
    Rotation::new(from_float(radians.cos()), from_float(radians.sin()))
}

fn stats_at(x: i32, y: i32, width: i32, height: i32) -> AsteroidStats {
    AsteroidStats {
        transform: screen().trans(whole(x), whole(y)),
        width: whole(width),
        height: whole(height),
    }
}

fn still() -> Vec2 {
    Vec2::new(whole(0), whole(0))
}

fn tick(app: &mut App, dt: Fixed, controls: &ButtonStates) {
    assert!(app.has_room());
    let ship = app.ship();
    let spin = rotation_by(ship.turn_angle(dt));
    let heading = rotation_by(ship.rotation_after(dt, controls));
    app.update(dt, controls, spin, heading);
}

fn sorted(mut ids: Vec<i64>) -> Vec<i64> {
    ids.sort();
    ids.dedup();
    ids
}

fn asteroid_ids(app: &App) -> Vec<i64> {
    sorted(app.asteroids().iter().map(|a| a.id).collect())
}

fn bullet_ids(app: &App) -> Vec<i64> {
    sorted(app.bullets().iter().map(|b| b.id).collect())
}

#[test]
fn new_game_holds_a_ship_and_nothing_else() {
    let app = App::new(512, 512);
    assert_eq!(app.ship(), Ship::new(512, 512));
    assert_eq!(app.bullet_count(), 0);
    assert_eq!(app.asteroid_count(), 0);
    assert!(app.bullets().is_empty());
    assert!(app.asteroids().is_empty());
    assert!(app.queued_bullets().is_empty());
    assert!(app.queued_asteroids().is_empty());
    assert_eq!(app.bullet(0), None);
    assert_eq!(app.asteroid(0), None);
    assert!(app.has_room());
}

#[test]
fn shooting_adds_a_bullet_and_starts_the_cooldown() {
    let mut app = App::new(512, 512);
    app.shoot();
    let first = Bullet {
        id: 0,
        transform: screen().trans(whole(256), whole(256)).trans(whole(-8), whole(-10)),
        lifetime: whole(0),
    };
    assert_eq!(app.bullet_count(), 1);
    assert_eq!(app.bullet(0), Some(first));
    assert_eq!(first.get_position(), point(253, 261));
    assert_eq!(app.ship().last_shot_counter, whole(3));
    assert_eq!(app.ship().transform, Ship::new(512, 512).transform);

    app.shoot();
    assert_eq!(app.bullet_count(), 2);
    assert_eq!(app.bullet(0), Some(first));
    assert_eq!(app.bullet(1), Some(Bullet { id: 1, ..first }));
    assert_eq!(app.bullet(2), None);
    assert_eq!(bullet_ids(&app), vec![0, 1]);
}

#[test]
fn spawned_asteroids_get_ids_in_turn() {
    let mut app = App::new(512, 512);
    let first = stats_at(100, 100, 100, 100);
    let second = stats_at(300, 200, 60, 40);
    app.spawn_asteroid(&first, Vec2::new(millis(300), millis(400)));
    app.spawn_asteroid(&second, Vec2::new(millis(500), millis(600)));
    assert_eq!(app.asteroid_count(), 2);
    assert_eq!(
        app.asteroid(0),
        Some(Asteroid {
            id: 0,
            transform: first.transform,
            width: whole(100),
            height: whole(100),
            velocity: Vec2::new(millis(300), millis(400)),
        })
    );
    assert_eq!(
        app.asteroid(1),
        Some(Asteroid {
            id: 1,
            transform: second.transform,
            width: whole(60),
            height: whole(40),
            velocity: Vec2::new(millis(500), millis(600)),
        })
    );
    assert_eq!(asteroid_ids(&app), vec![0, 1]);
    assert_eq!(app.bullet_count(), 0);
}

#[test]
fn added_asteroids_get_speeds_in_range() {
    let mut app = App::new(512, 512);
    let stats = stats_at(100, 100, 100, 100);
    for _ in 0..200 {
        app.add_asteroids(&stats);
    }
    assert_eq!(app.asteroid_count(), 200);
    let all = app.asteroids();
    let mut other_than_lowest = 0;
    let mut distinct_x: Vec<i64> = vec![];
    for asteroid in &all {
        assert!(MIN_SPEED <= asteroid.velocity.x.raw && asteroid.velocity.x.raw < MAX_SPEED);
        assert!(MIN_SPEED <= asteroid.velocity.y.raw && asteroid.velocity.y.raw < MAX_SPEED);
        assert_eq!(asteroid.transform, stats.transform);
        assert_eq!(asteroid.width, stats.width);
        assert_eq!(asteroid.height, stats.height);
        assert_eq!(app.asteroid(asteroid.id), Some(*asteroid));
        if asteroid.velocity.x.raw != MIN_SPEED || asteroid.velocity.y.raw != MIN_SPEED {
            other_than_lowest += 1;
        }
        distinct_x.push(asteroid.velocity.x.raw);
    }
    assert!(other_than_lowest > 0);
    assert!(sorted(distinct_x).len() > 1);
    assert_eq!(asteroid_ids(&app), (0..200).collect::<Vec<i64>>());
}

#[test]
fn old_bullets_are_culled_and_the_weapon_is_ready_again() {
    let mut app = App::new(512, 512);
    let idle = ButtonStates::new();
    app.shoot();
    app.advance(millis(1_199), &idle, Rotation::identity(), Rotation::identity());
    assert_eq!(app.bullet(0).unwrap().lifetime, millis(1_199));
    assert_eq!(app.ship().last_shot_counter, millis(1_801));
    app.cull_expired_bullets();
    assert_eq!(app.bullet_count(), 1);
    assert_eq!(app.ship().last_shot_counter, millis(1_801));

    app.advance(millis(1), &idle, Rotation::identity(), Rotation::identity());
    assert_eq!(app.bullet(0).unwrap().lifetime, millis(1_200));
    app.cull_expired_bullets();
    assert_eq!(app.bullet_count(), 0);
    assert_eq!(app.bullet(0), None);
    assert_eq!(app.ship().last_shot_counter, whole(0));
}

#[test]
fn bullets_that_leave_the_view_are_culled() {
    let mut app = App::new(512, 512);
    let idle = ButtonStates::new();
    app.shoot();
    let mut steps = 0;
    while app.bullet_count() == 1 {
        let pos = app.bullet(0).unwrap().get_position();
        assert_eq!(pos, point(253, 261 + 5 * steps));
        assert!(pos.y.le(whole(512)));
        app.advance(millis(1), &idle, Rotation::identity(), Rotation::identity());
        steps += 1;
        app.cull_expired_bullets();
    }
    assert_eq!(steps, 51);
    assert_eq!(app.ship().last_shot_counter, whole(0));
}

#[test]
fn culling_keeps_the_bullets_that_are_not_spent() {
    let mut app = App::new(512, 512);
    let idle = ButtonStates::new();
    app.shoot();
    app.advance(millis(700), &idle, Rotation::identity(), Rotation::identity());
    app.shoot();
    app.advance(millis(700), &idle, Rotation::identity(), Rotation::identity());
    app.shoot();
    assert_eq!(bullet_ids(&app), vec![0, 1, 2]);
    let second = app.bullet(1).unwrap();
    let third = app.bullet(2).unwrap();
    app.cull_expired_bullets();
    assert_eq!(bullet_ids(&app), vec![1, 2]);
    assert_eq!(app.bullet(1), Some(second));
    assert_eq!(app.bullet(2), Some(third));
    assert_eq!(app.ship().last_shot_counter, whole(0));
}

#[test]
fn nothing_collides_in_an_empty_game() {
    let mut app = App::new(512, 512);
    app.detect_collisions();
    assert!(app.queued_bullets().is_empty());
    app.shoot();
    app.detect_collisions();
    assert!(app.queued_bullets().is_empty());
    assert!(app.queued_asteroids().is_empty());
    app.cull_collided_objects();
    assert_eq!(app.bullet_count(), 1);
    assert_eq!(app.ship().last_shot_counter, whole(3));
}

#[test]
fn distant_asteroid_is_not_hit() {
    let mut app = App::new(512, 512);
    app.spawn_asteroid(&stats_at(400, 400, 100, 100), still());
    app.shoot();
    app.detect_collisions();
    assert!(app.queued_bullets().is_empty());
    assert!(app.queued_asteroids().is_empty());
    app.cull_collided_objects();
    assert_eq!(app.bullet_count(), 1);
    assert_eq!(app.asteroid_count(), 1);
}

#[test]
fn asteroid_splits_once_and_its_fragments_do_not() {
    let mut app = App::new(512, 512);
    let parent = stats_at(208, 236, 60, 60);
    app.spawn_asteroid(&parent, still());
    assert_eq!(app.asteroid(0).unwrap().get_position(), point(238, 246));
    app.shoot();
    assert_eq!(app.bullet(0).unwrap().get_position(), point(253, 261));

    app.detect_collisions();
    assert_eq!(app.queued_bullets(), vec![0]);
    assert_eq!(app.queued_asteroids(), vec![0]);
    assert_eq!(app.bullet_count(), 1);
    assert_eq!(app.asteroid_count(), 1);

    app.cull_collided_objects();
    assert!(app.queued_bullets().is_empty());
    assert!(app.queued_asteroids().is_empty());
    assert_eq!(app.bullet_count(), 0);
    assert_eq!(app.ship().last_shot_counter, whole(0));
    assert_eq!(asteroid_ids(&app), vec![1, 2]);
    let left = app.asteroid(1).unwrap();
    let right = app.asteroid(2).unwrap();
    assert_eq!(left.transform, parent.transform.trans(whole(-30), whole(0)));
    assert_eq!(right.transform, parent.transform.trans(whole(30), whole(0)));
    for child in [left, right] {
        assert_eq!(child.width, whole(30));
        assert_eq!(child.height, whole(30));
        assert!(MIN_SPEED <= child.velocity.x.raw && child.velocity.x.raw < MAX_SPEED);
        assert!(MIN_SPEED <= child.velocity.y.raw && child.velocity.y.raw < MAX_SPEED);
    }
    assert_eq!(left.get_position(), point(193, 261));
    assert_eq!(right.get_position(), point(253, 261));

    app.shoot();
    assert_eq!(app.bullet(1).unwrap().get_position(), point(253, 261));
    app.detect_collisions();
    assert_eq!(app.queued_bullets(), vec![1]);
    assert_eq!(app.queued_asteroids(), vec![2]);
    app.cull_collided_objects();
    assert_eq!(app.bullet_count(), 0);
    assert_eq!(asteroid_ids(&app), vec![1]);
    assert_eq!(app.asteroid(1), Some(left));
}

#[test]
fn small_asteroid_is_removed_without_fragments() {
    let mut app = App::new(512, 512);
    app.spawn_asteroid(&stats_at(229, 227, 48, 48), still());
    assert_eq!(app.asteroid(0).unwrap().get_position(), point(253, 261));
    app.shoot();
    app.detect_collisions();
    assert_eq!(app.queued_asteroids(), vec![0]);
    app.cull_collided_objects();
    assert_eq!(app.asteroid_count(), 0);
    assert_eq!(app.bullet_count(), 0);
}

#[test]
fn asteroid_that_is_large_on_one_side_only_leaves_nothing() {
    let mut app = App::new(512, 512);
    app.spawn_asteroid(&stats_at(203, 241, 100, 40), still());
    assert_eq!(app.asteroid(0).unwrap().get_position(), point(253, 251));
    app.shoot();
    app.detect_collisions();
    assert_eq!(app.queued_asteroids(), vec![0]);
    app.cull_collided_objects();
    assert_eq!(app.asteroid_count(), 0);
}

#[test]
fn one_bullet_may_hit_two_asteroids() {
    let mut app = App::new(512, 512);
    app.spawn_asteroid(&stats_at(208, 236, 60, 60), still());
    app.spawn_asteroid(&stats_at(229, 227, 48, 48), still());
    app.spawn_asteroid(&stats_at(10, 10, 60, 60), still());
    app.shoot();
    app.detect_collisions();
    assert_eq!(app.queued_bullets(), vec![0, 0]);
    assert_eq!(sorted(app.queued_asteroids()), vec![0, 1]);
    assert_eq!(app.queued_asteroids().len(), 2);

    app.cull_collided_objects();
    assert_eq!(app.bullet_count(), 0);
    assert_eq!(asteroid_ids(&app), vec![2, 3, 4]);
    assert_eq!(app.asteroid(3).unwrap().width, whole(30));
    assert_eq!(app.asteroid(4).unwrap().width, whole(30));
    assert_eq!(app.asteroid(2).unwrap().width, whole(60));
    assert_eq!(app.ship().last_shot_counter, whole(0));
}

#[test]
fn hits_that_are_queued_twice_are_worked_off_once() {
    let mut app = App::new(512, 512);
    app.spawn_asteroid(&stats_at(208, 236, 60, 60), still());
    app.shoot();
    app.detect_collisions();
    app.detect_collisions();
    assert_eq!(app.queued_bullets(), vec![0, 0]);
    assert_eq!(app.queued_asteroids(), vec![0, 0]);
    app.cull_collided_objects();
    assert_eq!(app.bullet_count(), 0);
    assert_eq!(asteroid_ids(&app), vec![1, 2]);

    app.cull_collided_objects();
    assert_eq!(asteroid_ids(&app), vec![1, 2]);
}

#[test]
fn detection_does_not_depend_on_the_order_of_the_entities() {
    let mut queues: Vec<(Vec<i64>, Vec<i64>)> = vec![];
    let mut left_over: Vec<(Vec<i64>, Vec<i64>)> = vec![];
    for order in 0..8 {
        let mut app = App::new(512, 512);
        let idle = ButtonStates::new();
        for i in 0..6 {
            let x = 180 + 12 * ((i * 5 + order) % 6);
            app.spawn_asteroid(&stats_at(x, 236, 60, 60), still());
        }
        app.spawn_asteroid(&stats_at(10, 10, 60, 60), still());
        app.shoot();
        app.advance(millis(1), &idle, Rotation::identity(), Rotation::identity());
        app.shoot();
        app.detect_collisions();
        let hit_asteroids: Vec<i64> = app
            .asteroids()
            .iter()
            .filter(|a| app.queued_asteroids().contains(&a.id))
            .map(|a| to_float(a.get_position().x) as i64)
            .collect();
        queues.push((sorted(app.queued_bullets()), sorted(hit_asteroids)));
        app.cull_collided_objects();
        let widths: Vec<i64> = app.asteroids().iter().map(|a| a.width.raw).collect();
        let mut widths_sorted = widths.clone();
        widths_sorted.sort();
        left_over.push((bullet_ids(&app), widths_sorted));
    }
    for i in 1..queues.len() {
        assert_eq!(queues[i], queues[0]);
        assert_eq!(left_over[i], left_over[0]);
    }
    assert_eq!(queues[0].0, vec![0, 1]);
    assert!(!queues[0].1.is_empty());
}

#[test]
fn starting_asteroids_are_set_down_away_from_the_borders() {
    let mut app = App::new(512, 512);
    let mut places: Vec<(i64, i64)> = vec![];
    for id in 0..100 {
        let place = app.add_starting_asteroid();
        assert!(START_MIN <= place.x.raw && place.x.raw < START_MAX);
        assert!(START_MIN <= place.y.raw && place.y.raw < START_MAX);
        let asteroid = app.asteroid(id).unwrap();
        assert_eq!(asteroid.id, id);
        assert_eq!(asteroid.width, whole(100));
        assert_eq!(asteroid.height, whole(100));
        assert_eq!(asteroid.transform, screen().trans(place.x, place.y));
        assert!(MIN_SPEED <= asteroid.velocity.x.raw && asteroid.velocity.x.raw < MAX_SPEED);
        assert!(MIN_SPEED <= asteroid.velocity.y.raw && asteroid.velocity.y.raw < MAX_SPEED);
        let pos = asteroid.get_position();
        assert!(whole(100).le(pos.x) && pos.x.le(whole(462)));
        assert!(whole(50).le(pos.y) && pos.y.le(whole(412)));
        places.push((place.x.raw, place.y.raw));
    }
    assert_eq!(app.asteroid_count(), 100);
    places.sort();
    places.dedup();
    assert!(places.len() > 1);
}

#[test]
fn idle_game_keeps_its_two_asteroids() {
    let mut app = App::new(512, 512);
    app.add_starting_asteroid();
    app.add_starting_asteroid();
    let idle = ButtonStates::new();
    let dt = Fixed::from_raw(16_666_667);
    for _ in 0..120 {
        tick(&mut app, dt, &idle);
        app.detect_collisions();
        assert_eq!(app.asteroid_count(), 2);
        assert_eq!(app.bullet_count(), 0);
    }
    assert_eq!(asteroid_ids(&app), vec![0, 1]);
    assert!(app.queued_bullets().is_empty());
    assert!(app.queued_asteroids().is_empty());
    assert_eq!(app.ship(), Ship::new(512, 512));
}

#[test]
fn held_fire_shoots_once_until_the_bullet_is_gone() {
    let mut app = App::new(512, 512);
    let fire = ButtonStates { fire: true, ..ButtonStates::new() };
    let dt = millis(100);
    let mut last_lifetime = whole(0);
    for step in 1..=12 {
        tick(&mut app, dt, &fire);
        assert_eq!(bullet_ids(&app), vec![0]);
        let bullet = app.bullet(0).unwrap();
        assert!(bullet.lifetime.ge(last_lifetime));
        assert_eq!(bullet.lifetime, millis(100 * step));
        assert_eq!(bullet.get_position(), point(253, 261 + 5 * step as i32));
        last_lifetime = bullet.lifetime;
        assert_eq!(app.ship().last_shot_counter, millis(3_000 - 100 * step));
    }
    tick(&mut app, dt, &fire);
    assert_eq!(bullet_ids(&app), vec![1]);
    assert_eq!(app.bullet(0), None);
    assert_eq!(app.bullet(1).unwrap().lifetime, millis(100));
    assert_eq!(app.ship().last_shot_counter, millis(2_900));
}

#[test]
fn fire_is_ignored_while_the_weapon_cools_down() {
    let mut app = App::new(512, 512);
    let fire = ButtonStates { fire: true, ..ButtonStates::new() };
    app.shoot();
    for _ in 0..5 {
        app.advance(millis(10), &fire, Rotation::identity(), Rotation::identity());
        assert_eq!(app.bullet_count(), 1);
    }
    assert_eq!(app.ship().last_shot_counter, millis(2_950));
    app.advance(millis(2_949), &fire, Rotation::identity(), Rotation::identity());
    assert_eq!(app.bullet_count(), 1);
    assert_eq!(app.ship().last_shot_counter, millis(1));
    app.advance(millis(10), &fire, Rotation::identity(), Rotation::identity());
    assert_eq!(app.bullet_count(), 1);
    assert_eq!(app.ship().last_shot_counter, whole(0));
    app.advance(millis(10), &fire, Rotation::identity(), Rotation::identity());
    assert_eq!(bullet_ids(&app), vec![0, 1]);
    assert_eq!(app.ship().last_shot_counter, millis(2_990));
}

#[test]
fn controls_steer_the_ship() {
    let dt = millis(500);
    let idle = ButtonStates::new();
    let start = Ship::new(512, 512);
    let spin = rotation_by(whole(1));

    let mut app = App::new(512, 512);
    tick(&mut app, dt, &ButtonStates { left: true, ..idle });
    assert_eq!(app.ship().rotation, whole(-1));
    assert_eq!(app.ship().transform, start.transform.rot(spin.inverse()));

    let mut app = App::new(512, 512);
    tick(&mut app, dt, &ButtonStates { right: true, ..idle });
    assert_eq!(app.ship().rotation, whole(1));
    assert_eq!(app.ship().transform, start.transform.rot(spin));

    let mut app = App::new(512, 512);
    tick(&mut app, dt, &ButtonStates { left: true, right: true, ..idle });
    assert_eq!(app.ship(), start);

    let mut app = App::new(512, 512);
    tick(&mut app, dt, &ButtonStates { up: true, ..idle });
    assert_eq!(app.ship().rotation, whole(0));
    assert_eq!(app.ship().get_position(), point(256, 316));

    let mut app = App::new(512, 512);
    tick(&mut app, dt, &ButtonStates { right: true, up: true, ..idle });
    assert_eq!(app.ship().transform, start.transform.rot(spin).trans(whole(0), whole(-60)));
}

#[test]
fn ship_that_flies_out_comes_back_with_its_heading() {
    let mut app = App::new(512, 512);
    let idle = ButtonStates::new();
    let turn = ButtonStates { right: true, ..idle };
    let thrust = ButtonStates { up: true, ..idle };
    tick(&mut app, millis(400), &turn);
    let rotation = app.ship().rotation;
    assert_eq!(rotation, millis(800));
    let mut wrapped = false;
    for _ in 0..200 {
        let before = app.ship().get_position();
        tick(&mut app, millis(50), &thrust);
        let after = app.ship().get_position();
        assert!(whole(0).le(after.x) && after.x.le(whole(512)));
        assert!(whole(0).le(after.y) && after.y.le(whole(512)));
        assert_eq!(app.ship().rotation, rotation);
        if after.x.lt(before.x) {
            wrapped = true;
        }
    }
    assert!(wrapped);
}

#[test]
fn asteroids_drift_during_a_tick() {
    let mut app = App::new(512, 512);
    let stats = stats_at(100, 200, 60, 40);
    app.spawn_asteroid(&stats, Vec2::new(millis(500), millis(250)));
    tick(&mut app, whole(2), &ButtonStates::new());
    let asteroid = app.asteroid(0).unwrap();
    assert_eq!(asteroid.transform, stats.transform.trans(whole(1), millis(500)));
    assert_eq!(asteroid.velocity, Vec2::new(millis(500), millis(250)));
}

#[test]
fn queued_hits_are_worked_off_by_the_next_tick() {
    let mut app = App::new(512, 512);
    app.spawn_asteroid(&stats_at(208, 236, 60, 60), still());
    app.shoot();
    app.detect_collisions();
    tick(&mut app, millis(16), &ButtonStates::new());
    assert_eq!(app.bullet_count(), 0);
    assert_eq!(asteroid_ids(&app), vec![1, 2]);
    assert!(app.queued_bullets().is_empty());
    assert!(app.queued_asteroids().is_empty());
    assert_eq!(app.ship().last_shot_counter, whole(0));
}

#[test]
fn tick_of_no_time_moves_bullets_only() {
    let mut app = App::new(512, 512);
    app.spawn_asteroid(&stats_at(100, 200, 60, 40), Vec2::new(millis(500), millis(250)));
    app.shoot();
    let ship = app.ship();
    let asteroid = app.asteroid(0).unwrap();
    let bullet = app.bullet(0).unwrap();
    tick(&mut app, whole(0), &ButtonStates::new());
    assert_eq!(app.ship(), ship);
    assert_eq!(app.asteroid(0), Some(asteroid));
    let moved = app.bullet(0).unwrap();
    assert_eq!(moved.lifetime, bullet.lifetime);
    assert_eq!(moved.transform, bullet.transform.trans(whole(0), whole(-5)));
}

#[test]
fn numbers_at_the_ends_of_the_range_do_no_harm() {
    let far = Fixed::from_raw(i64::MAX);
    let back = Fixed::from_raw(i64::MIN);
    let all = ButtonStates { left: false, right: true, up: true, fire: true };
    for dt in [far, back] {
        let mut app = App::new(512, 512);
        app.spawn_asteroid(
            &AsteroidStats {
                transform: screen().trans(far, back),
                width: far,
                height: far,
            },
            Vec2::new(far, back),
        );
        app.shoot();
        for _ in 0..4 {
            assert!(app.has_room());
            app.update(dt, &all, Rotation::new(far, back), Rotation::new(back, far));
            app.detect_collisions();
            assert!(app.ship().last_shot_counter.ge(whole(0)));
        }
        assert!(app.asteroid_count() <= 1);
        assert!(app.bullet_count() <= 1);
    }
}

#[test]
fn room_for_ids_is_there_at_the_start() {
    let mut app = App::new(1, 1);
    assert!(app.has_room());
    for _ in 0..50 {
        app.add_starting_asteroid();
        app.shoot();
    }
    assert!(app.has_room());
    assert_eq!(app.asteroid_count(), 50);
    assert_eq!(app.bullet_count(), 50);
}
