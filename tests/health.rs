use blahbarian::entity::{EntityId, EntityTookDamage};
use blahbarian::health::{Health, HealthBar};

#[test]
fn repeated_damage_counts_down_to_death() {
    let mut h = Health::new(100);
    assert_eq!(h.health(), 100);
    assert_eq!(h.max(), 100);
    let ev = EntityTookDamage::new(EntityId(1), 30);
    h.damage(ev.damage());
    assert_eq!(h.health(), 70);
    assert!(!h.is_dead());
    h.damage(ev.damage());
    h.damage(ev.damage());
    assert_eq!(h.health(), 10);
    assert!(!h.is_dead());
    h.damage(ev.damage());
    assert_eq!(h.health(), -20);
    assert!(h.is_dead());
}

#[test]
fn exactly_zero_health_is_dead() {
    let mut h = Health::new(10);
    h.damage(10);
    assert_eq!(h.health(), 0);
    assert!(h.is_dead());
}

#[test]
fn negative_damage_heals() {
    let mut h = Health::new(50);
    h.damage(20);
    h.damage(-5);
    assert_eq!(h.health(), 35);
}

#[test]
fn percentage_is_not_clamped() {
    let mut h = Health::new(200);
    assert_eq!(h.health_percentage(), 100);
    h.damage(150);
    assert_eq!(h.health_percentage(), 25);
    h.damage(51);
    assert_eq!(h.health(), -1);
    assert_eq!(h.health_percentage(), 0);
    h.damage(99);
    assert_eq!(h.health_percentage(), -50);
}

#[test]
fn bar_width_tracks_health_fraction() {
    let bar = HealthBar::new(EntityId(7), 24_000_000);
    assert_eq!(bar.health_entity(), EntityId(7));
    assert_eq!(bar.max_width(), 24_000_000);
    let mut h = Health::new(100);
    assert_eq!(bar.width_for(&h), 24_000_000);
    h.damage(25);
    assert_eq!(bar.width_for(&h), 18_000_000);
    h.damage(100);
    assert_eq!(bar.width_for(&h), 0);
}

#[test]
fn damage_event_carries_target_and_amount() {
    let ev = EntityTookDamage::new(EntityId(3), 25);
    assert_eq!(ev.entity(), EntityId(3));
    assert_eq!(ev.damage(), 25);
}
