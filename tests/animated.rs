use blahbarian::animated::Animated;
use blahbarian::geometry::{Vector, UNIT};
use blahbarian::physics::{AnimatedDirection, Collider, ColliderBundle, Transform, Velocity};

fn tags(idle: Option<&str>) -> Animated {
    Animated::new(
        idle.map(|s| s.to_string()),
        "run_down_left".to_string(),
        "run_down_right".to_string(),
        "run_up_left".to_string(),
        "run_up_right".to_string(),
    )
}

#[test]
fn each_direction_picks_its_tag() {
    let a = tags(Some("idle"));
    assert_eq!(a.animation_tag(AnimatedDirection::Idle), "idle");
    assert_eq!(a.animation_tag(AnimatedDirection::LeftDown), "run_down_left");
    assert_eq!(a.animation_tag(AnimatedDirection::LeftUp), "run_up_left");
    assert_eq!(a.animation_tag(AnimatedDirection::RightDown), "run_down_right");
    assert_eq!(a.animation_tag(AnimatedDirection::RightUp), "run_up_right");
}

#[test]
fn standing_still_without_idle_tag_uses_down_left() {
    let a = tags(None);
    assert_eq!(a.animation_tag(AnimatedDirection::Idle), "run_down_left");
}

#[test]
fn velocity_drives_the_chosen_tag() {
    let a = tags(Some("idle"));
    let v = Velocity::from_vec(Vector { x: 200_000, y: 200_000 });
    assert_eq!(a.animation_tag(v.as_animation()), "run_up_right");
}

#[test]
fn collider_bundle_places_a_circle() {
    let t = Transform::from_translation(Vector { x: UNIT, y: 2 * UNIT });
    let b = ColliderBundle::circle(16 * UNIT, t);
    assert_eq!(b.transform, t);
    assert_eq!(b.collider, Collider::Circle { radius: 16 * UNIT });
}
