use blahbarian::enemy::{Enemy, EnemySpawnConfig};
use blahbarian::entity::{EnitityAllegence, EntityId, EntityTookDamage};
use blahbarian::geometry::{Vector, UNIT};
use blahbarian::health::Health;
use blahbarian::physics::{Collider, Transform, Velocity};
use blahbarian::weapon::Projectile;
use blahbarian::stages::{stage_order, EntityData, GameSet, PlayerInput, Role};
use blahbarian::world::World;

fn no_input() -> PlayerInput {
    PlayerInput { left: false, right: false, down: false, up: false, aim: None, attack: false }
}

fn quiet_spawner() -> EnemySpawnConfig {
    EnemySpawnConfig::new(1_000_000_000, 100)
}

fn health_of(w: &World, id: EntityId) -> Option<i32> {
    w.get(id).and_then(|e| e.health).map(|h| h.health())
}

fn projectile_at(pos: Vector) -> EntityData {
    EntityData {
        id: EntityId(0),
        parent: None,
        transform: Transform::from_translation(pos),
        velocity: Velocity::zero(),
        collider: Some(Collider::circle(16 * UNIT)),
        allegence: Some(EnitityAllegence::Player),
        health: None,
        role: Role::Projectile(Projectile::new(25)),
    }
}

#[test]
fn integration_adds_velocity_times_elapsed_time() {
    let mut w = World::new();
    let id = w.spawn_table(Vector { x: 10, y: -20 });
    let k = w.index_of(id).unwrap();
    w.entities[k].velocity = Velocity::from_vec(Vector { x: 3, y: -7 });
    assert!(w.motion_fits(16));
    w.update_positions(16);
    assert_eq!(w.get(id).unwrap().transform.translation, Vector { x: 10 + 3 * 16, y: -20 - 7 * 16 });
    w.update_positions(33);
    assert_eq!(w.get(id).unwrap().transform.translation, Vector { x: 10 + 3 * 49, y: -20 - 7 * 49 });
}

#[test]
fn enemy_closes_in_and_melee_is_gated_by_cooldown() {
    let mut w = World::new();
    let mut spawner = quiet_spawner();
    let player = w.spawn_player(Vector { x: 0, y: 0 });
    let enemy = w.spawn_table(Vector { x: 0, y: 64 * UNIT });
    let origin = Vector { x: 0, y: 0 };

    // First second: the enemy only turns toward the player; touching circles do not overlap.
    let events = w.tick(&mut spawner, &no_input(), 1000, 1000, origin);
    assert!(events.is_empty());
    assert_eq!(w.get(enemy).unwrap().velocity.as_vec(), Vector { x: 0, y: -25_000 });
    assert_eq!(health_of(&w, player), Some(100));

    // Second second: it moves 25 units, overlaps, and strikes once.
    let events = w.tick(&mut spawner, &no_input(), 1000, 2000, origin);
    assert_eq!(events, vec![EntityTookDamage::new(player, 10)]);
    assert_eq!(w.get(enemy).unwrap().transform.translation, Vector { x: 0, y: 39 * UNIT });
    assert_eq!(health_of(&w, player), Some(90));

    // One more second of overlap in 20 ms frames: a hit only when more than
    // 100 ms have passed since the last one (2120, 2240, ..., 2960).
    let mut frames_with_hits = 0;
    for frame in 1..=50u64 {
        let events = w.tick(&mut spawner, &no_input(), 20, 2000 + 20 * frame, origin);
        if !events.is_empty() {
            frames_with_hits += 1;
        }
    }
    assert_eq!(frames_with_hits, 8);
    assert_eq!(health_of(&w, player), Some(10));
    let lost = 100 - health_of(&w, player).unwrap();
    assert_eq!(lost % 10, 0);
}

#[test]
fn projectile_hits_only_the_first_of_two_targets() {
    let mut w = World::new();
    let a = w.spawn_table(Vector { x: 10 * UNIT, y: 0 });
    let b = w.spawn_table(Vector { x: -10 * UNIT, y: 0 });
    let p = w.spawn(projectile_at(Vector { x: 0, y: 0 }));
    let events = w.projectile_hurt_entity();
    assert_eq!(events, vec![EntityTookDamage::new(a, 25)]);
    assert!(w.get(p).is_none());
    w.take_damage(&events);
    assert_eq!(health_of(&w, a), Some(75));
    assert_eq!(health_of(&w, b), Some(100));
    // Nothing is left to hit with.
    assert!(w.projectile_hurt_entity().is_empty());
}

#[test]
fn projectile_spares_its_own_side_and_misses_far_targets() {
    let mut w = World::new();
    let player = w.spawn_player(Vector { x: 0, y: 0 });
    let far = w.spawn_table(Vector { x: 100 * UNIT, y: 0 });
    let p = w.spawn(projectile_at(Vector { x: 0, y: 0 }));
    let events = w.projectile_hurt_entity();
    assert!(events.is_empty());
    assert!(w.get(p).is_some());
    assert_eq!(health_of(&w, player), Some(100));
    assert_eq!(health_of(&w, far), Some(100));
}

#[test]
fn death_removes_the_entity_and_its_health_bar() {
    let mut w = World::new();
    let enemy = w.spawn_table(Vector { x: 0, y: 0 });
    let bar = EntityId(enemy.0 + 1);
    assert_eq!(w.get(bar).unwrap().parent, Some(enemy));
    assert_eq!(w.health_bar_width(bar), Some(24 * UNIT));
    w.take_damage(&vec![EntityTookDamage::new(enemy, 40)]);
    assert_eq!(w.health_bar_width(bar), Some(24 * UNIT * 60 / 100));
    let events = vec![EntityTookDamage::new(enemy, 60), EntityTookDamage::new(enemy, 5)];
    w.take_damage(&events);
    assert!(w.get(enemy).is_none());
    assert!(w.get(bar).is_none());
    assert!(w.entities.is_empty());
}

#[test]
fn events_for_missing_targets_are_dropped() {
    let mut w = World::new();
    let enemy = w.spawn_table(Vector { x: 0, y: 0 });
    let before = w.entities.clone();
    w.take_damage(&vec![EntityTookDamage::new(EntityId(99), 30)]);
    assert_eq!(w.entities, before);
    // A health bar has no health: damage to it is dropped too.
    w.take_damage(&vec![EntityTookDamage::new(EntityId(enemy.0 + 1), 30)]);
    assert_eq!(w.entities, before);
}

#[test]
fn spawner_places_enemy_around_player_and_ramps() {
    let mut w = World::new();
    let mut spawner = EnemySpawnConfig::default();
    let player = w.spawn_player(Vector { x: 5 * UNIT, y: 5 * UNIT });
    let offset = Vector { x: 0, y: 200 * UNIT };
    assert_eq!(w.spawn_enemy(&mut spawner, 4000, offset), None);
    let id = w.spawn_enemy(&mut spawner, 1000, offset).unwrap();
    let e = w.get(id).unwrap();
    assert_eq!(e.transform.translation, Vector { x: 5 * UNIT, y: 205 * UNIT });
    assert_eq!(e.role, Role::Enemy(Enemy::Table { last_melee: 0, health_entity: EntityId(id.0 + 1) }));
    assert_eq!(e.health, Some(Health::new(100)));
    assert_eq!(w.get(EntityId(id.0 + 1)).unwrap().parent, Some(id));
    assert_eq!(spawner.spawn_interval, 4500);
    assert_eq!(spawner.spawn_timer, 0);
    assert_ne!(id, player);
}

#[test]
fn spawner_waits_for_a_player() {
    let mut w = World::new();
    let mut spawner = EnemySpawnConfig::new(100, 100);
    let offset = Vector { x: 0, y: 200 * UNIT };
    assert_eq!(w.spawn_enemy(&mut spawner, 150, offset), None);
    assert!(spawner.finished());
    assert_eq!(spawner.spawn_interval, 100);
    w.spawn_player(Vector { x: 0, y: 0 });
    assert!(w.spawn_enemy(&mut spawner, 10, offset).is_some());
    assert_eq!(spawner.spawn_interval, 100);
    assert_eq!(spawner.spawn_timer, 0);
}

#[test]
fn input_moves_player_and_throws_when_ready() {
    let mut w = World::new();
    let player = w.spawn_player(Vector { x: 0, y: 0 });
    let input = PlayerInput { left: false, right: true, down: false, up: false, aim: Some(Vector { x: 0, y: UNIT }), attack: true };
    w.player_input(&input, 1000);
    assert_eq!(w.get(player).unwrap().velocity.as_vec(), Vector { x: 200_000, y: 0 });
    assert_eq!(w.entities.len(), 3);
    let axe = w.entities[2];
    assert_eq!(axe.role, Role::Projectile(Projectile::new(25)));
    assert_eq!(axe.transform.translation, Vector { x: 0, y: 500_000 });
    assert_eq!(axe.velocity.as_vec(), Vector { x: 0, y: 512_000 });
    // Still cooling down 400 ms later: no second axe.
    w.player_input(&input, 1400);
    assert_eq!(w.entities.len(), 3);
    w.player_input(&input, 1500);
    assert_eq!(w.entities.len(), 4);
}

#[test]
fn two_players_disable_player_stages() {
    let mut w = World::new();
    w.spawn_player(Vector { x: 0, y: 0 });
    w.spawn_player(Vector { x: 0, y: 0 });
    let enemy = w.spawn_table(Vector { x: 0, y: 10 * UNIT });
    assert_eq!(w.player_index(), None);
    w.enemy_follow_player();
    assert_eq!(w.get(enemy).unwrap().velocity.as_vec(), Vector { x: 0, y: 0 });
    assert!(w.enemy_melee_player(5000).is_empty());
}

#[test]
fn stages_run_in_fixed_order() {
    assert_eq!(
        stage_order(),
        vec![
            GameSet::PlayerInput,
            GameSet::Physics,
            GameSet::Ai,
            GameSet::DealDamage,
            GameSet::ResolveDamage,
            GameSet::Ui,
        ]
    );
}

#[test]
fn room_for_tick_respects_world_edge() {
    let mut w = World::new();
    assert!(w.has_room_for_tick(1000));
    assert!(!w.has_room_for_tick(2_000_000));
    w.spawn_table(Vector { x: 4_503_599_627_370_496, y: 0 });
    assert!(!w.has_room_for_tick(0));
}

#[test]
fn damage_events_count_down_and_kill_in_the_resolver() {
    let mut w = World::new();
    let enemy = w.spawn_table(Vector { x: 0, y: 0 });
    let hit = vec![EntityTookDamage::new(enemy, 30)];
    w.take_damage(&hit);
    assert_eq!(health_of(&w, enemy), Some(70));
    w.take_damage(&vec![EntityTookDamage::new(enemy, 30), EntityTookDamage::new(enemy, 30)]);
    assert_eq!(health_of(&w, enemy), Some(10));
    w.take_damage(&hit);
    assert!(w.get(enemy).is_none());
}

#[test]
fn ids_are_handed_out_in_order() {
    let mut w = World::new();
    let p = w.spawn_player(Vector { x: 0, y: 0 });
    let e = w.spawn_table(Vector { x: 0, y: 0 });
    assert_eq!(p, EntityId(0));
    assert_eq!(e, EntityId(2));
    assert_eq!(w.next_id, 4);
    let ids: Vec<u64> = w.entities.iter().map(|x| x.id.0).collect();
    assert_eq!(ids, vec![0, 1, 2, 3]);
}

#[test]
fn player_health_bar_follows_damage() {
    let mut w = World::new();
    let p = w.spawn_player(Vector { x: 0, y: 0 });
    let bar = EntityId(p.0 + 1);
    w.take_damage(&vec![EntityTookDamage::new(p, 50)]);
    assert_eq!(w.health_bar_width(bar), Some(12 * UNIT));
    assert_eq!(w.health_bar_width(p), None);
}

fn marker_child_of(parent: EntityId) -> EntityData {
    EntityData {
        id: EntityId(0),
        parent: Some(parent),
        transform: Transform::from_translation(Vector { x: 0, y: 0 }),
        velocity: Velocity::zero(),
        collider: None,
        allegence: None,
        health: None,
        role: Role::Projectile(Projectile::new(0)),
    }
}

#[test]
fn death_removes_every_descendant() {
    let mut w = World::new();
    let bystander = w.spawn_table(Vector { x: 5 * UNIT, y: 0 });
    let enemy = w.spawn_table(Vector { x: 0, y: 0 });
    let bar = EntityId(enemy.0 + 1);
    let grandchild = w.spawn(marker_child_of(bar));
    let great_grandchild = w.spawn(marker_child_of(grandchild));
    w.take_damage(&vec![EntityTookDamage::new(enemy, 130)]);
    assert!(w.get(enemy).is_none());
    assert!(w.get(bar).is_none());
    assert!(w.get(grandchild).is_none());
    assert!(w.get(great_grandchild).is_none());
    assert!(w.get(bystander).is_some());
    assert!(w.get(EntityId(bystander.0 + 1)).is_some());
    assert_eq!(w.entities.len(), 2);
}

#[test]
fn despawn_recursive_spares_unrelated_entities() {
    let mut w = World::new();
    let a = w.spawn_table(Vector { x: 0, y: 0 });
    let b = w.spawn_table(Vector { x: 0, y: 0 });
    let child_of_b = w.spawn(marker_child_of(EntityId(b.0 + 1)));
    w.despawn_recursive(a);
    assert!(w.get(a).is_none());
    assert!(w.get(EntityId(a.0 + 1)).is_none());
    assert!(w.get(b).is_some());
    assert!(w.get(child_of_b).is_some());
}

fn nested_world() -> (World, EntityId, EntityId, EntityId) {
    // A parent with health, a child with health, and the child's own child.
    let mut w = World::new();
    let parent = w.spawn_table(Vector { x: 0, y: 0 });
    let mut child = w.get(parent).unwrap();
    child.parent = Some(parent);
    child.role = Role::Projectile(Projectile::new(0));
    let child = w.spawn(child);
    let grandchild = w.spawn(marker_child_of(child));
    (w, parent, child, grandchild)
}

#[test]
fn nested_deaths_do_not_depend_on_event_order() {
    let (mut w1, parent, child, grandchild) = nested_world();
    let (mut w2, _, _, _) = nested_world();
    w1.take_damage(&vec![EntityTookDamage::new(child, 100), EntityTookDamage::new(parent, 100)]);
    w2.take_damage(&vec![EntityTookDamage::new(parent, 100), EntityTookDamage::new(child, 100)]);
    assert_eq!(w1.entities, w2.entities);
    assert!(w1.get(grandchild).is_none());
    assert!(w1.get(child).is_none());
}

#[test]
fn fresh_enemy_has_exactly_its_bar_as_child() {
    let mut w = World::new();
    w.spawn_player(Vector { x: 0, y: 0 });
    let e = w.spawn_table(Vector { x: 0, y: 0 });
    let children: Vec<EntityId> = w.entities.iter().filter(|x| x.parent == Some(e)).map(|x| x.id).collect();
    assert_eq!(children, vec![EntityId(e.0 + 1)]);
}

#[test]
fn faster_player_moves_at_its_own_speed() {
    let mut w = World::new();
    let p = w.spawn_player(Vector { x: 0, y: 0 });
    let k = w.index_of(p).unwrap();
    if let Role::Player(mut pl) = w.entities[k].role {
        pl.speed = 500_000;
        w.entities[k].role = Role::Player(pl);
    }
    let input = PlayerInput { left: false, right: false, down: true, up: false, aim: None, attack: false };
    w.player_input(&input, 0);
    assert_eq!(w.get(p).unwrap().velocity.as_vec(), Vector { x: 0, y: -500_000 });
}
