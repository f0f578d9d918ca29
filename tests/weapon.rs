use blahbarian::enemy::{spawn_angle_degrees, Enemy, EnemySpawnConfig};
use blahbarian::entity::{EnitityAllegence, EntityId};
use blahbarian::geometry::{Vector, UNIT};
use blahbarian::physics::Collider;
use blahbarian::player::{calculate_player_direction_from_mouse, input_velocity, Player};
use blahbarian::weapon::PlayerWeapon;

#[test]
fn weapon_cooldown_gates_attacks() {
    let mut w = PlayerWeapon::axe();
    assert_eq!(w.cooldown(), 500);
    assert!(w.can_attack(0));
    let origin = Vector { x: 0, y: 0 };
    let facing = Vector { x: 1, y: 0 };
    assert!(w.attack(0, origin, facing).is_some());
    assert!(!w.can_attack(499));
    assert_eq!(w.cooldown_remaining(499), 1);
    assert!(w.attack(499, origin, facing).is_none());
    assert!(w.can_attack(500));
    assert_eq!(w.cooldown_remaining(500), 0);
    assert!(w.attack(500, origin, facing).is_some());
    assert_eq!(w.cooldown_remaining(600), 400);
}

#[test]
fn thrown_axe_has_weapon_constants() {
    let mut w = PlayerWeapon::axe();
    let b = w.attack(1234, Vector { x: 5 * UNIT, y: 0 }, Vector { x: 0, y: 3 }).unwrap();
    assert_eq!(b.transform.translation, Vector { x: 5 * UNIT, y: 500_000 });
    assert_eq!(b.velocity.as_vec(), Vector { x: 0, y: 512_000 });
    assert_eq!(b.collider, Collider::circle(16 * UNIT));
    assert_eq!(b.projectile.damage(), 25);
    assert_eq!(b.allegence, EnitityAllegence::Player);
    assert_eq!(w, PlayerWeapon::Axe { last_attack: Some(1234) });
    assert_eq!(w.damage(), 25);
}

#[test]
fn elapsed_time_before_last_attack_counts_as_none() {
    let w = PlayerWeapon::Axe { last_attack: Some(1000) };
    assert_eq!(w.cooldown_remaining(900), 500);
}

#[test]
fn enemy_melee_needs_strictly_more_than_cooldown() {
    let mut e = Enemy::Table { last_melee: 1000, health_entity: EntityId(2) };
    assert_eq!(e.speed(), 25_000);
    assert_eq!(e.melee_range(), 64 * UNIT);
    assert_eq!(e.melee_damage(), 10);
    assert_eq!(e.melee_cooldown(), 100);
    assert!(!e.can_melee(1100));
    assert!(e.can_melee(1101));
    assert!(!e.can_melee(900));
    e.set_last_melee(1101);
    assert_eq!(e.last_melee(), 1101);
    assert_eq!(e, Enemy::Table { last_melee: 1101, health_entity: EntityId(2) });
}

#[test]
fn spawner_interval_ramps_down() {
    let mut c = EnemySpawnConfig::new(5000, 100);
    assert!(!c.finished());
    c.tick(4999);
    assert!(!c.finished());
    c.tick(1);
    assert!(c.finished());
    c.reset();
    assert_eq!(c.spawn_interval, 4500);
    assert_eq!(c.spawn_timer, 0);
    c.reset();
    assert_eq!(c.spawn_interval, 4050);
}

#[test]
fn spawner_interval_has_a_floor() {
    let mut c = EnemySpawnConfig::new(110, 500);
    c.reset();
    assert_eq!(c.spawn_interval, 100);
    c.reset();
    assert_eq!(c.spawn_interval, 100);
    let mut low = EnemySpawnConfig::new(50, 500);
    low.reset();
    assert_eq!(low.spawn_interval, 50);
}

#[test]
fn spawner_default_and_saturating_timer() {
    let mut c = EnemySpawnConfig::default();
    assert_eq!(c, EnemySpawnConfig::new(5000, 100));
    c.tick(u64::MAX);
    c.tick(10);
    assert_eq!(c.spawn_timer, u64::MAX);
}

#[test]
fn movement_keys_give_normalised_velocity() {
    assert_eq!(input_velocity(false, true, false, false, 200_000).as_vec(), Vector { x: 200_000, y: 0 });
    assert_eq!(input_velocity(true, true, false, false, 200_000).as_vec(), Vector { x: 0, y: 0 });
    assert_eq!(input_velocity(true, false, false, true, 200_000).as_vec(), Vector { x: -141_421, y: 141_421 });
}

#[test]
fn cursor_direction_is_relative_to_window_centre() {
    let d = calculate_player_direction_from_mouse(Vector { x: 700, y: 100 }, 800, 600);
    assert_eq!(d, Vector { x: 600 * UNIT, y: 400 * UNIT });
}

#[test]
fn new_player_has_an_axe() {
    let mut p = Player::new();
    assert_eq!(p.speed(), 200_000);
    assert_eq!(*p.weapon_one(), PlayerWeapon::axe());
    assert!(p.weapon_two().is_none());
    *p.weapon_one_mut() = PlayerWeapon::Axe { last_attack: Some(5) };
    assert_eq!(p.weapon_one, PlayerWeapon::Axe { last_attack: Some(5) });
}

#[test]
fn spawn_angle_wraps_draws_into_whole_degrees() {
    assert_eq!(spawn_angle_degrees(0), 0);
    assert_eq!(spawn_angle_degrees(359), 359);
    assert_eq!(spawn_angle_degrees(360), 0);
    assert_eq!(spawn_angle_degrees(u32::MAX), 255);
}

#[test]
fn spawner_knows_when_it_will_be_due() {
    let mut c = EnemySpawnConfig::new(1000, 100);
    c.tick(400);
    assert!(!c.due_after(599));
    assert!(c.due_after(600));
    assert!(c.due_after(u64::MAX));
}
