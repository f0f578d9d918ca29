use blahbarian::geometry::{isqrt, scale_to, Vector, UNIT};
use blahbarian::physics::{AnimatedDirection, Collider, Transform, Velocity};

fn at(x: i64, y: i64) -> Transform {
    Transform::from_translation(Vector { x, y })
}

#[test]
fn circles_exactly_touching_do_not_collide() {
    let a = Collider::circle(5 * UNIT);
    let b = Collider::circle(5 * UNIT);
    assert!(!a.is_colliding(&at(0, 0), &b, &at(10 * UNIT, 0)));
}

#[test]
fn circles_slightly_overlapping_collide() {
    let a = Collider::circle(5 * UNIT);
    let b = Collider::circle(5 * UNIT);
    // 9.99 world units apart.
    assert!(a.is_colliding(&at(0, 0), &b, &at(9_990_000, 0)));
}

#[test]
fn collision_is_symmetric_on_examples() {
    let small = Collider::circle(3 * UNIT);
    let large = Collider::circle(7 * UNIT);
    let cases = [(at(0, 0), at(6 * UNIT, 8 * UNIT)), (at(1, 2), at(-4 * UNIT, 9 * UNIT)), (at(0, 0), at(0, 0))];
    for (p, q) in cases.iter() {
        assert_eq!(small.is_colliding(p, &large, q), large.is_colliding(q, &small, p));
    }
    // Centres 10 apart, radii 3 and 7: touching only, so no collision either way.
    assert!(!small.is_colliding(&cases[0].0, &large, &cases[0].1));
}

#[test]
fn diagonal_distance_uses_both_axes() {
    let a = Collider::circle(2 * UNIT);
    let b = Collider::circle(3 * UNIT);
    // 3-4-5 triangle: distance exactly 5 = 2 + 3, so no collision.
    assert!(!a.is_colliding(&at(0, 0), &b, &at(3 * UNIT, 4 * UNIT)));
    assert!(a.is_colliding(&at(0, 0), &b, &at(3 * UNIT, 4 * UNIT - 1)));
}

#[test]
fn floor_square_roots() {
    assert_eq!(isqrt(0), 0);
    assert_eq!(isqrt(1), 1);
    assert_eq!(isqrt(15), 3);
    assert_eq!(isqrt(16), 4);
    assert_eq!(isqrt(17), 4);
    assert_eq!(isqrt(u128::MAX), 18_446_744_073_709_551_615);
}

#[test]
fn scaling_keeps_direction_and_sets_length() {
    assert_eq!(scale_to(Vector { x: 3, y: 4 }, 10), Vector { x: 6, y: 8 });
    assert_eq!(scale_to(Vector { x: -3, y: 4 }, 10), Vector { x: -6, y: 8 });
    assert_eq!(scale_to(Vector { x: 0, y: -64 * UNIT }, 25_000), Vector { x: 0, y: -25_000 });
    // A diagonal at speed 25 world units per second, rounded toward zero.
    assert_eq!(scale_to(Vector { x: -5 * UNIT, y: -5 * UNIT }, 25_000), Vector { x: -17_677, y: -17_677 });
    assert_eq!(scale_to(Vector { x: 0, y: 0 }, 25_000), Vector { x: 0, y: 0 });
}

#[test]
fn velocity_classifies_direction() {
    assert_eq!(Velocity::zero().as_animation(), AnimatedDirection::Idle);
    assert_eq!(Velocity::from_vec(Vector { x: 300, y: 0 }).as_animation(), AnimatedDirection::Idle);
    assert_eq!(Velocity::from_vec(Vector { x: 317, y: 0 }).as_animation(), AnimatedDirection::RightDown);
    assert_eq!(Velocity::from_vec(Vector { x: -1000, y: -1000 }).as_animation(), AnimatedDirection::LeftDown);
    assert_eq!(Velocity::from_vec(Vector { x: -1000, y: 1000 }).as_animation(), AnimatedDirection::LeftUp);
    assert_eq!(Velocity::from_vec(Vector { x: 1000, y: 1000 }).as_animation(), AnimatedDirection::RightUp);
    assert_eq!(Velocity::from_vec(Vector { x: 0, y: 1000 }).as_animation(), AnimatedDirection::LeftUp);
    assert_eq!(AnimatedDirection::default(), AnimatedDirection::Idle);
}

#[test]
fn velocity_round_trips_its_vector() {
    let v = Vector { x: 12, y: -7 };
    assert_eq!(Velocity::from_vec(v).as_vec(), v);
}
