use asteroids_core::asteroid::{Asteroid, AsteroidStats};
use asteroids_core::bullet::Bullet;
use asteroids_core::controls::ButtonStates;
use asteroids_core::fixed::{Fixed, SCALE};
use asteroids_core::positioned::Positioned;
use asteroids_core::shape::{Rect, Shape};
use asteroids_core::ship::Ship;
use asteroids_core::transform::{Rotation, Transform, Vec2};

fn whole(n: i32) -> Fixed {
    Fixed::from_int(n)
}

fn millis(n: i64) -> Fixed {
    Fixed::from_raw(n * 1_000_000)
}

fn point(x: i32, y: i32) -> Vec2 {
    Vec2::new(whole(x), whole(y))
}

fn screen() -> Transform {
    Transform::viewport(512, 512)
}

fn quarter_turn() -> Rotation {
    Rotation::new(whole(0), whole(1))
}

fn rock(x: i32, y: i32, width: i32, height: i32, vx: Fixed, vy: Fixed) -> Asteroid {
    Asteroid {
        id: 7,
        transform: screen().trans(whole(x), whole(y)),
        width: whole(width),
        height: whole(height),
        velocity: Vec2::new(vx, vy),
    }
}

#[test]
fn button_states_start_idle_and_reset() {
    let mut states = ButtonStates::new();
    assert_eq!(states, ButtonStates { left: false, right: false, up: false, fire: false });
    states.left = true;
    states.right = true;
    states.up = true;
    states.fire = true;
    states.reset();
    assert_eq!(states, ButtonStates::new());
}

#[test]
fn new_ship_stands_in_the_centre() {
    let ship = Ship::new(512, 512);
    assert_eq!(ship.transform, screen().trans(whole(256), whole(256)));
    assert_eq!(ship.rot_speed, whole(2));
    assert_eq!(ship.move_speed, whole(120));
    assert_eq!(ship.rotation, whole(0));
    assert_eq!(ship.height, whole(20));
    assert_eq!(ship.width, whole(16));
    assert_eq!(ship.shoot_cooldown, whole(3));
    assert_eq!(ship.last_shot_counter, whole(0));
    assert_eq!(ship.position_point(), point(0, 0));
    assert_eq!(ship.transform_matrix(), ship.transform);
    assert_eq!(ship.get_position(), point(256, 256));
}

#[test]
fn new_ship_in_a_wide_window() {
    let ship = Ship::new(800, 600);
    assert_eq!(ship.transform.a.raw, 2_500_000);
    assert_eq!(ship.transform.e.raw, -3_333_333);
    assert_eq!(ship.transform.c.raw, 0);
    assert_eq!(ship.transform.f.raw, 100);
}

#[test]
fn ship_hull_is_a_triangle() {
    let ship = Ship::new(512, 512);
    let corners = ship.get_coords();
    assert_eq!(corners, [point(0, -10), point(-8, 10), point(8, 10)]);
    assert_eq!(ship.render(), Shape::Triangle { corners, transform: ship.transform });
}

#[test]
fn ship_turns_left_and_right() {
    let mut ship = Ship::new(512, 512);
    let start = ship.transform;
    let dt = millis(500);
    assert_eq!(ship.turn_angle(dt), whole(1));
    ship.rotate_right(dt, quarter_turn());
    assert_eq!(ship.rotation, whole(1));
    assert_eq!(ship.transform, start.rot(quarter_turn()));
    ship.rotate_left(dt, quarter_turn());
    assert_eq!(ship.rotation, whole(0));
    assert_eq!(ship.transform, start);
    ship.rotate_left(millis(250), quarter_turn());
    assert_eq!(ship.rotation, millis(-500));
    assert_eq!(ship.transform, start.rot(quarter_turn().inverse()));
    assert_eq!(ship.get_position(), point(256, 256));
}

#[test]
fn ship_rotation_after_controls() {
    let ship = Ship::new(512, 512);
    let dt = millis(100);
    let idle = ButtonStates::new();
    let left = ButtonStates { left: true, ..idle };
    let right = ButtonStates { right: true, ..idle };
    let both = ButtonStates { left: true, right: true, ..idle };
    assert_eq!(ship.rotation_after(dt, &idle), whole(0));
    assert_eq!(ship.rotation_after(dt, &left), millis(-200));
    assert_eq!(ship.rotation_after(dt, &right), millis(200));
    assert_eq!(ship.rotation_after(dt, &both), whole(0));
}

#[test]
fn ship_moves_along_its_nose() {
    let mut ship = Ship::new(512, 512);
    ship.move_fwd(millis(500));
    assert_eq!(ship.get_position(), point(256, 316));
    assert_eq!(ship.rotation, whole(0));

    let mut turned = Ship::new(512, 512);
    turned.rotate_right(millis(100), quarter_turn());
    turned.move_fwd(millis(500));
    assert_eq!(turned.get_position(), point(316, 256));
}

#[test]
fn ship_cooldown_runs_down_to_zero() {
    let mut ship = Ship::new(512, 512);
    ship.last_shot_counter = whole(3);
    ship.update(whole(1), Rotation::identity());
    assert_eq!(ship.last_shot_counter, whole(2));
    ship.update(millis(1_999), Rotation::identity());
    assert_eq!(ship.last_shot_counter, millis(1));
    ship.update(whole(5), Rotation::identity());
    assert_eq!(ship.last_shot_counter, whole(0));
    ship.update(whole(5), Rotation::identity());
    assert_eq!(ship.last_shot_counter, whole(0));
    assert_eq!(ship.cooled(whole(1)), whole(0));
}

#[test]
fn ship_inside_the_view_is_left_alone() {
    let mut ship = Ship::new(512, 512);
    ship.move_fwd(whole(2));
    let before = ship;
    assert_eq!(ship.get_position(), point(256, 496));
    ship.update(millis(16), quarter_turn());
    assert_eq!(ship.transform, before.transform);
    assert_eq!(ship.rotation, before.rotation);
}

#[test]
fn ship_wraps_across_the_upper_border() {
    let mut ship = Ship::new(512, 512);
    ship.move_fwd(whole(3));
    assert_eq!(ship.get_position(), point(256, 616));
    assert_eq!(ship.get_percent_of_screen_moved(), Vec2::new(whole(0), Fixed::from_raw(1_367_187_500)));
    assert_eq!(ship.wrap_limit(), whole(246));
    ship.update(millis(16), Rotation::identity());
    assert_eq!(
        ship.transform,
        screen().trans(whole(256), whole(256)).trans(whole(0), whole(246))
    );
    assert_eq!(ship.get_position(), point(256, 10));
    assert_eq!(ship.rotation, whole(0));
}

#[test]
fn ship_wraps_across_the_lower_border() {
    let mut ship = Ship::new(512, 512);
    ship.transform = ship.transform.trans(whole(0), whole(300));
    assert_eq!(ship.get_position(), point(256, -44));
    ship.update(millis(16), Rotation::identity());
    assert_eq!(ship.get_position(), point(256, 502));
}

#[test]
fn ship_wraps_across_a_side_border_with_flipped_signs() {
    let mut ship = Ship::new(512, 512);
    ship.transform = ship.transform.trans(whole(300), whole(0));
    assert_eq!(ship.get_position(), point(556, 256));
    ship.update(millis(16), Rotation::identity());
    assert_eq!(ship.get_position(), point(10, 246));
}

#[test]
fn ship_wrap_keeps_the_heading() {
    let mut ship = Ship::new(512, 512);
    ship.rotate_right(millis(785), quarter_turn());
    let rotation = ship.rotation;
    ship.move_fwd(whole(3));
    assert_eq!(ship.get_position(), point(616, 256));
    ship.update(millis(16), quarter_turn());
    assert_eq!(ship.rotation, rotation);
    assert_eq!(ship.transform.a, whole(0));
    assert_eq!(ship.transform.b.raw, -3_906_250);
    assert_eq!(ship.transform.d.raw, -3_906_250);
    assert_eq!(ship.transform.e, whole(0));
    let pos = ship.get_position();
    assert!(whole(0).le(pos.x) && pos.x.le(whole(512)));
    assert!(whole(0).le(pos.y) && pos.y.le(whole(512)));
}

#[test]
fn emerge_other_side_clamps_both_axes() {
    let mut ship = Ship::new(512, 512);
    ship.rotation = millis(1_234);
    let before = ship;
    ship.emerge_other_side(&Vec2::new(whole(5), whole(-5)), whole(1), whole(1), Rotation::identity());
    assert_eq!(
        ship.transform,
        screen().trans(whole(256), whole(256)).trans(whole(246), whole(-246))
    );
    assert_eq!(ship.rotation, before.rotation);
    assert_eq!(ship.last_shot_counter, before.last_shot_counter);

    ship.emerge_other_side(
        &Vec2::new(millis(500), millis(-250)),
        whole(-1),
        whole(-1),
        Rotation::identity(),
    );
    assert_eq!(
        ship.transform,
        screen().trans(whole(256), whole(256)).trans(whole(-128), whole(64))
    );
    assert_eq!(ship.rotation, before.rotation);
}

#[test]
fn bullet_flies_and_ages() {
    let mut bullet = Bullet {
        id: 4,
        transform: screen().trans(whole(100), whole(100)),
        lifetime: whole(0),
    };
    assert_eq!(bullet.position_point(), point(5, -5));
    assert_eq!(bullet.get_position(), point(105, 407));
    bullet.update(millis(16));
    assert_eq!(bullet.id, 4);
    assert_eq!(bullet.transform, screen().trans(whole(100), whole(95)));
    assert_eq!(bullet.get_position(), point(105, 412));
    assert_eq!(bullet.lifetime, millis(16));
    bullet.update(millis(16));
    assert_eq!(bullet.lifetime, millis(32));
    assert_eq!(bullet.get_position(), point(105, 417));
}

#[test]
fn bullet_lifetime_never_goes_down() {
    let mut bullet = Bullet { id: 0, transform: screen(), lifetime: whole(0) };
    let mut last = bullet.lifetime;
    for step in [0, 1, 16, 1_000, 0, 250] {
        bullet.update(millis(step));
        assert!(bullet.lifetime.ge(last));
        last = bullet.lifetime;
    }
    bullet.lifetime = Fixed::from_raw(i64::MAX - 5);
    bullet.update(whole(1));
    assert_eq!(bullet.lifetime.raw, i64::MAX);
}

#[test]
fn bullet_is_spent_by_age() {
    let mut bullet = Bullet {
        id: 0,
        transform: screen().trans(whole(256), whole(256)),
        lifetime: Fixed::from_raw(1_199_999_999),
    };
    assert!(!bullet.is_spent());
    bullet.lifetime = Fixed::from_raw(1_200_000_000);
    assert!(bullet.is_spent());
    bullet.lifetime = whole(9);
    assert!(bullet.is_spent());
}

#[test]
fn bullet_is_spent_outside_the_view() {
    let inside = Bullet { id: 0, transform: screen().trans(whole(-5), whole(-5)), lifetime: whole(0) };
    assert_eq!(inside.get_position(), point(0, 512));
    assert!(!inside.is_spent());
    let left = Bullet { id: 0, transform: screen().trans(whole(-6), whole(-5)), lifetime: whole(0) };
    assert_eq!(left.get_position(), point(-1, 512));
    assert!(left.is_spent());
    let above = Bullet { id: 0, transform: screen().trans(whole(-5), whole(-6)), lifetime: whole(0) };
    assert_eq!(above.get_position(), point(0, 513));
    assert!(above.is_spent());
    let right = Bullet { id: 0, transform: screen().trans(whole(508), whole(100)), lifetime: whole(0) };
    assert!(right.is_spent());
    let below = Bullet { id: 0, transform: screen().trans(whole(100), whole(508)), lifetime: whole(0) };
    assert!(below.is_spent());
}

#[test]
fn bullet_shape_is_a_small_ellipse() {
    let bullet = Bullet { id: 0, transform: screen().trans(whole(9), whole(8)), lifetime: whole(0) };
    assert_eq!(
        bullet.render(),
        Shape::Ellipse {
            bounds: Rect { x: whole(0), y: whole(0), width: whole(10), height: whole(10) },
            transform: bullet.transform,
        }
    );
}

#[test]
fn asteroid_position_is_its_centre() {
    let asteroid = rock(100, 200, 60, 40, whole(0), whole(0));
    assert_eq!(asteroid.position_point(), point(30, -20));
    assert_eq!(asteroid.get_position(), point(130, 292));
    assert_eq!(
        asteroid.render(),
        Shape::Ellipse {
            bounds: Rect { x: whole(0), y: whole(0), width: whole(60), height: whole(40) },
            transform: asteroid.transform,
        }
    );
}

#[test]
fn asteroid_drifts_by_its_velocity() {
    let mut asteroid = rock(100, 200, 60, 40, millis(500), millis(250));
    asteroid.update(whole(2));
    assert_eq!(asteroid.id, 7);
    assert_eq!(asteroid.transform, screen().trans(whole(100), whole(200)).trans(whole(1), millis(500)));
    assert_eq!(asteroid.get_position(), Vec2::new(whole(131), millis(291_500)));
    assert_eq!(asteroid.velocity, Vec2::new(millis(500), millis(250)));
    assert_eq!(asteroid.width, whole(60));
    assert_eq!(asteroid.height, whole(40));
}

#[test]
fn asteroid_bounces_off_the_right_border() {
    let mut asteroid = rock(482, 200, 60, 40, millis(500), millis(250));
    asteroid.update(whole(1));
    assert_eq!(asteroid.get_position().x, millis(512_500));
    assert_eq!(asteroid.velocity, Vec2::new(millis(-500), millis(250)));
    asteroid.update(whole(1));
    assert_eq!(asteroid.get_position().x, whole(512));
    assert_eq!(asteroid.velocity, Vec2::new(millis(-500), millis(250)));
}

#[test]
fn asteroid_bounces_off_the_left_border() {
    let mut asteroid = rock(0, 200, 60, 40, millis(-500), millis(250));
    asteroid.update(whole(1));
    assert_eq!(asteroid.get_position().x, millis(29_500));
    assert_eq!(asteroid.velocity, Vec2::new(millis(500), millis(250)));
}

#[test]
fn asteroid_bounces_off_the_upper_and_lower_borders() {
    let mut high = rock(200, -10, 60, 40, millis(500), millis(-250));
    high.update(whole(1));
    assert_eq!(high.get_position().y, Fixed::from_raw(502_249_999_872));
    assert_eq!(high.velocity, Vec2::new(millis(500), millis(250)));

    let mut low = rock(200, 492, 60, 40, millis(500), millis(250));
    low.update(whole(1));
    assert_eq!(low.get_position().y, Fixed::from_raw(-250_000_128));
    assert_eq!(low.velocity, Vec2::new(millis(500), millis(-250)));
}

#[test]
fn asteroid_in_a_corner_turns_on_both_axes() {
    let mut asteroid = rock(500, 500, 60, 40, millis(500), millis(250));
    asteroid.update(whole(1));
    assert_eq!(asteroid.velocity, Vec2::new(millis(-500), millis(-250)));
}

#[test]
fn asteroid_on_a_border_is_not_past_it() {
    let mut asteroid = rock(0, 492, 60, 40, whole(0), whole(0));
    assert_eq!(asteroid.get_position(), point(30, 0));
    asteroid.velocity = Vec2::new(millis(300), millis(300));
    asteroid.update(whole(0));
    assert_eq!(asteroid.velocity, Vec2::new(millis(300), millis(300)));
}

#[test]
fn large_asteroid_leaves_two_halves() {
    let asteroid = rock(200, 200, 60, 60, millis(300), millis(300));
    let (left, right) = asteroid.fragments().unwrap();
    assert_eq!(
        left,
        AsteroidStats {
            transform: asteroid.transform.trans(whole(-30), whole(0)),
            width: whole(30),
            height: whole(30),
        }
    );
    assert_eq!(
        right,
        AsteroidStats {
            transform: asteroid.transform.trans(whole(30), whole(0)),
            width: whole(30),
            height: whole(30),
        }
    );
}

#[test]
fn fragments_of_a_fragment_are_too_small() {
    let asteroid = rock(200, 200, 60, 60, millis(300), millis(300));
    let (left, right) = asteroid.fragments().unwrap();
    for part in [left, right] {
        let child = Asteroid {
            id: 9,
            transform: part.transform,
            width: part.width,
            height: part.height,
            velocity: Vec2::new(millis(300), millis(300)),
        };
        assert_eq!(child.fragments(), None);
    }
}

#[test]
fn asteroid_splits_only_above_the_limit_on_both_sides() {
    assert_eq!(rock(0, 0, 48, 48, whole(0), whole(0)).fragments(), None);
    assert_eq!(rock(0, 0, 48, 100, whole(0), whole(0)).fragments(), None);
    assert_eq!(rock(0, 0, 100, 48, whole(0), whole(0)).fragments(), None);
    assert_eq!(rock(0, 0, 100, 40, whole(0), whole(0)).fragments(), None);
    let mut just_above = rock(0, 0, 48, 48, whole(0), whole(0));
    just_above.width = Fixed::from_raw(48 * SCALE + 2);
    just_above.height = Fixed::from_raw(48 * SCALE + 3);
    let (left, right) = just_above.fragments().unwrap();
    assert_eq!(left.width.raw, 24 * SCALE + 1);
    assert_eq!(left.height.raw, 24 * SCALE + 1);
    assert_eq!(right.width, left.width);
    assert_eq!(right.height, left.height);
    let (wide, _) = rock(0, 0, 50, 100, whole(0), whole(0)).fragments().unwrap();
    assert_eq!(wide.width, whole(25));
    assert_eq!(wide.height, whole(50));
}
