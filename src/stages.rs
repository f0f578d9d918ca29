//! What each stage of a tick does to the entities, stated as functions
//! over sequences; the world's exec stages are proved to compute them.

use vstd::prelude::*;

use crate::enemy::{shrunk_interval, Enemy, EnemySpawnConfig, ENEMY_HEALTH, ENEMY_RADIUS};
use crate::entity::{EnitityAllegence, EntityId, EntityTookDamage};
use crate::geometry::{scaled, within, Vector, COORD_LIMIT, SPEED_LIMIT, UNIT};
use crate::health::{Health, HealthBar};
use crate::physics::{colliding, Collider, Transform, Velocity};
use crate::player::{key_direction, Player, PLAYER_HEALTH, PLAYER_RADIUS, PLAYER_SPEED};
use crate::weapon::{axe_projectile, throw_fits, PlayerWeapon, Projectile, ProjectileBundle, AXE_FORWARD_OFFSET};

verus! {
/// What an entity is, with the state that belongs to its kind.
#[derive(Clone, Copy, Debug, PartialEq, Eq, Structural)]
pub enum Role {
    Player(Player),
    Enemy(Enemy),
    Projectile(Projectile),
    HealthBar(HealthBar),
}

/// One entity and its components. `parent` marks an entity that exists only
/// to present its parent (a health bar) and is destroyed with it.
#[derive(Clone, Copy, Debug, PartialEq, Eq, Structural)]
pub struct EntityData {
    pub id: EntityId,
    pub parent: Option<EntityId>,
    pub transform: Transform,
    pub velocity: Velocity,
    pub collider: Option<Collider>,
    pub allegence: Option<EnitityAllegence>,
    pub health: Option<Health>,
    pub role: Role,
}

/// An entity's own components are consistent: it lies in the world, moves
/// no faster than the speed limit, and if it has health it is alive.
pub open spec fn entity_ok(e: EntityData) -> bool {
    &&& within(e.transform.translation, COORD_LIMIT as int)
    &&& e.velocity.wf()
    &&& (e.collider matches Some(c) ==> c.wf())
    &&& (e.health matches Some(h) ==> h.wf() && h.health > 0)
    &&& match e.role {
        Role::Player(p) => p.wf(),
        Role::Projectile(p) => p.damage >= 0,
        Role::HealthBar(b) => b.wf(),
        Role::Enemy(_) => true,
    }
}

/// Ids increase along the store, so no two entities share one.
pub open spec fn ids_increasing(s: Seq<EntityData>) -> bool {
    forall|i: int, j: int| 0 <= i < j < s.len() ==> (#[trigger] s[i]).id.0 < (#[trigger] s[j]).id.0
}

/// A parent is older than its child: its id is the smaller one.
pub open spec fn parent_older(e: EntityData) -> bool {
    e.parent matches Some(q) ==> q.0 < e.id.0
}

/// Every entity is consistent, is younger than its parent and carries an id
/// below `next_id`, and ids increase along the store (so parents come
/// before their children).
pub open spec fn world_ok(s: Seq<EntityData>, next_id: int) -> bool {
    &&& forall|i: int| 0 <= i < s.len() ==> entity_ok(#[trigger] s[i]) && parent_older(s[i]) && s[i].id.0 < next_id
    &&& ids_increasing(s)
}

pub open spec fn is_player(e: EntityData) -> bool {
    e.role is Player
}

/// How many of the first `n` entities are players.
pub open spec fn players_in(s: Seq<EntityData>, n: int) -> int
    decreases n,
{
    if n <= 0 {
        0
    } else {
        players_in(s, n - 1) + if is_player(s[n - 1]) { 1int } else { 0int }
    }
}

/// The index of the first player among the first `n` entities.
pub open spec fn first_player_in(s: Seq<EntityData>, n: int) -> Option<int>
    decreases n,
{
    if n <= 0 {
        None
    } else {
        match first_player_in(s, n - 1) {
            Some(k) => Some(k),
            None => if is_player(s[n - 1]) {
                Some(n - 1)
            } else {
                None
            },
        }
    }
}

/// The index of the player when there is exactly one; stages that need the
/// player do nothing otherwise.
pub open spec fn sole_player(s: Seq<EntityData>) -> Option<int> {
    if players_in(s, s.len() as int) == 1 {
        first_player_in(s, s.len() as int)
    } else {
        None
    }
}

pub proof fn lemma_first_player_in(s: Seq<EntityData>, n: int)
    requires
        0 <= n <= s.len(),
    ensures
        first_player_in(s, n) matches Some(k) ==> 0 <= k < n && is_player(s[k]),
    decreases n,
{
    if n > 0 {
        lemma_first_player_in(s, n - 1);
    }
}

/// `e` after moving at its velocity for `dt` milliseconds.
pub open spec fn move_entity(e: EntityData, dt: int) -> EntityData {
    EntityData {
        transform: Transform {
            translation: Vector {
                x: (e.transform.translation.x + e.velocity.0.x * dt) as i64,
                y: (e.transform.translation.y + e.velocity.0.y * dt) as i64,
            },
        },
        ..e
    }
}

/// Every entity moved for `dt` milliseconds.
pub open spec fn moved(s: Seq<EntityData>, dt: int) -> Seq<EntityData> {
    Seq::new(s.len(), |i: int| move_entity(s[i], dt))
}

/// Moving for `dt` milliseconds keeps `e` inside the world.
pub open spec fn move_fits(e: EntityData, dt: int) -> bool {
    &&& -COORD_LIMIT <= e.transform.translation.x + e.velocity.0.x * dt <= COORD_LIMIT
    &&& -COORD_LIMIT <= e.transform.translation.y + e.velocity.0.y * dt <= COORD_LIMIT
}

/// The velocity that steers `e` toward `target` at the enemy's speed.
pub open spec fn chase_velocity(e: EntityData, target: Vector) -> Velocity {
    match e.role {
        Role::Enemy(enemy) => Velocity(
            scaled(
                Vector {
                    x: (target.x - e.transform.translation.x) as i64,
                    y: (target.y - e.transform.translation.y) as i64,
                },
                enemy.speed_of(),
            ),
        ),
        _ => e.velocity,
    }
}

/// Every enemy heads for the player at its own speed; without exactly one
/// player nothing changes.
pub open spec fn followed(s: Seq<EntityData>) -> Seq<EntityData> {
    match sole_player(s) {
        None => s,
        Some(p) => Seq::new(
            s.len(),
            |i: int| EntityData { velocity: chase_velocity(s[i], s[p].transform.translation), ..s[i] },
        ),
    }
}

/// `enemy` with its last melee hit recorded at `now`.
pub open spec fn with_last_melee(enemy: Enemy, now: int) -> Enemy {
    match enemy {
        Enemy::Table { health_entity, .. } => Enemy::Table { last_melee: now as u64, health_entity },
    }
}

/// The hit that `e` lands on `player` at `now`: `e` is an enemy, the two
/// colliders overlap, and the enemy's melee cooldown has passed.
pub open spec fn melee_event(player: EntityData, e: EntityData, now: int) -> Option<EntityTookDamage> {
    match e.role {
        Role::Enemy(enemy) => if e.collider is Some && player.collider is Some && colliding(
            e.collider.unwrap(),
            e.transform.translation,
            player.collider.unwrap(),
            player.transform.translation,
        ) && enemy.melee_ready(now) {
            Some(EntityTookDamage { entity: player.id, damage: enemy.damage_of() as i32 })
        } else {
            None
        },
        _ => None,
    }
}

pub open spec fn melee_fn(player: EntityData, now: int) -> spec_fn(EntityData) -> Option<EntityTookDamage> {
    |e: EntityData| melee_event(player, e, now)
}

/// The melee hits of one tick, in entity order.
pub open spec fn melee_events(s: Seq<EntityData>, now: int) -> Seq<EntityTookDamage> {
    match sole_player(s) {
        None => Seq::empty(),
        Some(p) => s.filter_map(melee_fn(s[p], now)),
    }
}

/// The entities after the melee stage: each enemy that hit records `now`.
pub open spec fn after_melee(s: Seq<EntityData>, now: int) -> Seq<EntityData> {
    match sole_player(s) {
        None => s,
        Some(p) => Seq::new(
            s.len(),
            |i: int|
                if melee_event(s[p], s[i], now) is Some {
                    EntityData { role: Role::Enemy(with_last_melee(s[i].role->Enemy_0, now)), ..s[i] }
                } else {
                    s[i]
                },
        ),
    }
}

/// Projectile `p` may hit `t`: `t` is no projectile, both have a collider
/// and a side, the sides differ, and the colliders overlap.
pub open spec fn can_hit(p: EntityData, t: EntityData) -> bool {
    &&& !(t.role is Projectile)
    &&& p.collider is Some
    &&& t.collider is Some
    &&& p.allegence is Some
    &&& t.allegence is Some
    &&& p.allegence.unwrap() != t.allegence.unwrap()
    &&& colliding(t.collider.unwrap(), t.transform.translation, p.collider.unwrap(), p.transform.translation)
}

/// The index of the first of the first `n` entities that `p` may hit.
pub open spec fn first_hit_in(s: Seq<EntityData>, p: EntityData, n: int) -> Option<int>
    decreases n,
{
    if n <= 0 {
        None
    } else {
        match first_hit_in(s, p, n - 1) {
            Some(k) => Some(k),
            None => if can_hit(p, s[n - 1]) {
                Some(n - 1)
            } else {
                None
            },
        }
    }
}

/// The single hit of projectile `e`: on the first entity, in entity order,
/// that it may hit.
pub open spec fn hit_event(s: Seq<EntityData>, e: EntityData) -> Option<EntityTookDamage> {
    match e.role {
        Role::Projectile(pr) => match first_hit_in(s, e, s.len() as int) {
            Some(k) => Some(EntityTookDamage { entity: s[k].id, damage: pr.damage }),
            None => None,
        },
        _ => None,
    }
}

pub open spec fn hit_fn(s: Seq<EntityData>) -> spec_fn(EntityData) -> Option<EntityTookDamage> {
    |e: EntityData| hit_event(s, e)
}

pub open spec fn unspent_fn(s: Seq<EntityData>) -> spec_fn(EntityData) -> bool {
    |e: EntityData| hit_event(s, e) is None
}

/// The projectile hits of one tick, in entity order.
pub open spec fn projectile_events(s: Seq<EntityData>) -> Seq<EntityTookDamage> {
    s.filter_map(hit_fn(s))
}

/// The entities after the projectile stage: each projectile that hit is gone.
pub open spec fn after_projectiles(s: Seq<EntityData>) -> Seq<EntityData> {
    s.filter(unspent_fn(s))
}

/// The index of the first of the first `n` entities with id `id`.
pub open spec fn first_with_id(s: Seq<EntityData>, id: EntityId, n: int) -> Option<int>
    decreases n,
{
    if n <= 0 {
        None
    } else {
        match first_with_id(s, id, n - 1) {
            Some(k) => Some(k),
            None => if s[n - 1].id == id {
                Some(n - 1)
            } else {
                None
            },
        }
    }
}

/// Entity `i` is `id` itself or descends from it: its parent, looked up
/// among the entities before it, does. In a consistent world ids are unique
/// and parents are older, so come earlier: this follows the whole chain of
/// parents.
pub open spec fn descends_from(s: Seq<EntityData>, i: int, id: EntityId) -> bool
    decreases i,
{
    if i < 0 || i >= s.len() {
        false
    } else if s[i].id == id {
        true
    } else {
        match s[i].parent {
            Some(q) => match first_with_id(s, q, i) {
                Some(j) => if 0 <= j < i {
                    descends_from(s, j, id)
                } else {
                    false
                },
                None => false,
            },
            None => false,
        }
    }
}

/// The ids, in store order, among the first `n` entities, that go when
/// `id` is destroyed: `id` itself and every entity whose parent went
/// before it.
pub open spec fn doomed_ids(s: Seq<EntityData>, id: EntityId, n: int) -> Seq<EntityId>
    decreases n,
{
    if n <= 0 {
        Seq::empty()
    } else {
        let r = doomed_ids(s, id, n - 1);
        if s[n - 1].id == id || (s[n - 1].parent matches Some(q) && r.contains(q)) {
            r.push(s[n - 1].id)
        } else {
            r
        }
    }
}

pub open spec fn survives_fn(doomed: Seq<EntityId>) -> spec_fn(EntityData) -> bool {
    |e: EntityData| !doomed.contains(e.id)
}

/// The entities left after destroying `id` together with all of its
/// descendants.
pub open spec fn despawned(s: Seq<EntityData>, id: EntityId) -> Seq<EntityData> {
    s.filter(survives_fn(doomed_ids(s, id, s.len() as int)))
}

/// One damage event applied: the target, if it still exists and has
/// health, loses `damage`; if that kills it, it and its children go.
pub open spec fn apply_damage(s: Seq<EntityData>, ev: EntityTookDamage) -> Seq<EntityData> {
    match first_with_id(s, ev.entity, s.len() as int) {
        Some(k) => match s[k].health {
            Some(h) => {
                let left = h.health - ev.damage;
                if left <= 0 {
                    despawned(s, ev.entity)
                } else {
                    s.update(k, EntityData { health: Some(Health { health: left as i32, ..h }), ..s[k] })
                }
            },
            None => s,
        },
        None => s,
    }
}

/// All events applied in order.
pub open spec fn resolved(s: Seq<EntityData>, evs: Seq<EntityTookDamage>) -> Seq<EntityData>
    decreases evs.len(),
{
    if evs.len() == 0 {
        s
    } else {
        apply_damage(resolved(s, evs.drop_last()), evs.last())
    }
}

/// No event heals: every amount is non-negative, as from every damage source.
pub open spec fn no_healing(evs: Seq<EntityTookDamage>) -> bool {
    forall|i: int| 0 <= i < evs.len() ==> (#[trigger] evs[i]).damage >= 0
}

pub proof fn lemma_first_hit_in(s: Seq<EntityData>, p: EntityData, n: int)
    requires
        0 <= n <= s.len(),
    ensures
        first_hit_in(s, p, n) matches Some(k) ==> 0 <= k < n && can_hit(p, s[k]),
        first_hit_in(s, p, n) is None ==> forall|j: int| 0 <= j < n ==> !can_hit(p, #[trigger] s[j]),
    decreases n,
{
    if n > 0 {
        lemma_first_hit_in(s, p, n - 1);
    }
}

pub proof fn lemma_first_with_id(s: Seq<EntityData>, id: EntityId, n: int)
    requires
        0 <= n <= s.len(),
    ensures
        first_with_id(s, id, n) matches Some(k) ==> 0 <= k < n && s[k].id == id,
        first_with_id(s, id, n) is None ==> forall|k: int| 0 <= k < n ==> (#[trigger] s[k]).id != id,
    decreases n,
{
    if n > 0 {
        lemma_first_with_id(s, id, n - 1);
    }
}

pub proof fn lemma_first_hit_stable(s: Seq<EntityData>, p: EntityData, m: int, n: int)
    requires
        m <= n,
        first_hit_in(s, p, m) is Some,
    ensures
        first_hit_in(s, p, n) == first_hit_in(s, p, m),
    decreases n - m,
{
    if m < n {
        lemma_first_hit_stable(s, p, m, n - 1);
    }
}

pub proof fn lemma_first_with_id_stable(s: Seq<EntityData>, id: EntityId, m: int, n: int)
    requires
        m <= n,
        first_with_id(s, id, m) is Some,
    ensures
        first_with_id(s, id, n) == first_with_id(s, id, m),
    decreases n - m,
{
    if m < n {
        lemma_first_with_id_stable(s, id, m, n - 1);
    }
}

/// Dropping entities keeps ids increasing.
pub proof fn lemma_filter_increasing(s: Seq<EntityData>, f: spec_fn(EntityData) -> bool)
    requires
        ids_increasing(s),
    ensures
        ids_increasing(s.filter(f)),
    decreases s.len(),
{
    reveal(Seq::filter);
    if s.len() > 0 {
        let d = s.drop_last();
        assert(ids_increasing(d)) by {
            assert forall|i: int, j: int| 0 <= i < j < d.len() implies (#[trigger] d[i]).id.0 < (#[trigger] d[j]).id.0 by {
                assert(d[i] == s[i] && d[j] == s[j]);
            }
        }
        lemma_filter_increasing(d, f);
        let fd = d.filter(f);
        if f(s.last()) {
            assert forall|k: int| 0 <= k < fd.len() implies (#[trigger] fd[k]).id.0 < s.last().id.0 by {
                assert(fd.contains(fd[k]));
                d.lemma_filter_contains_rev(f, fd[k]);
                let m = choose|m: int| 0 <= m < d.len() && d[m] == fd[k];
                assert(s[m] == d[m]);
            }
            let out = fd.push(s.last());
            assert(s.filter(f) == out);
            assert forall|i: int, j: int| 0 <= i < j < out.len() implies (#[trigger] out[i]).id.0 < (#[trigger] out[j]).id.0 by {
                assert(out[i] == fd[i]);
                if j < fd.len() {
                    assert(out[j] == fd[j]);
                }
            }
        }
    }
}

/// The world invariant survives any filter.
pub proof fn lemma_filter_ok(s: Seq<EntityData>, next_id: int, f: spec_fn(EntityData) -> bool)
    requires
        world_ok(s, next_id),
    ensures
        world_ok(s.filter(f), next_id),
{
    broadcast use vstd::seq_lib::group_filter_ensures;
    assert forall|i: int| 0 <= i < s.filter(f).len() implies entity_ok(#[trigger] s.filter(f)[i])
        && parent_older(s.filter(f)[i]) && s.filter(f)[i].id.0 < next_id by {
        assert(s.filter(f).contains(s.filter(f)[i]));
        s.lemma_filter_contains_rev(f, s.filter(f)[i]);
    }
    lemma_filter_increasing(s, f);
}

/// Full width of a health bar: 24 world units.
pub const HEALTH_BAR_WIDTH: i64 = 24 * UNIT;

/// Where a health bar sits relative to its owner: 20 world units below.
pub const HEALTH_BAR_OFFSET_Y: i64 = -20 * UNIT;

/// `data` under the id `id`.
pub open spec fn with_id(data: EntityData, id: int) -> EntityData {
    EntityData { id: EntityId(id as u64), ..data }
}

/// A new table enemy at `pos`, whose health bar is `bar`.
pub open spec fn enemy_entity(id: int, bar: int, pos: Vector) -> EntityData {
    EntityData {
        id: EntityId(id as u64),
        parent: None,
        transform: Transform { translation: pos },
        velocity: Velocity(Vector { x: 0, y: 0 }),
        collider: Some(Collider::Circle { radius: ENEMY_RADIUS }),
        allegence: Some(EnitityAllegence::Enemy),
        health: Some(Health { health: ENEMY_HEALTH, max: ENEMY_HEALTH }),
        role: Role::Enemy(Enemy::Table { last_melee: 0, health_entity: EntityId(bar as u64) }),
    }
}

/// A new player at `pos`, with its first weapon ready.
pub open spec fn player_entity(id: int, pos: Vector) -> EntityData {
    EntityData {
        id: EntityId(id as u64),
        parent: None,
        transform: Transform { translation: pos },
        velocity: Velocity(Vector { x: 0, y: 0 }),
        collider: Some(Collider::Circle { radius: PLAYER_RADIUS }),
        allegence: Some(EnitityAllegence::Player),
        health: Some(Health { health: PLAYER_HEALTH, max: PLAYER_HEALTH }),
        role: Role::Player(
            Player { speed: PLAYER_SPEED, weapon_one: PlayerWeapon::Axe { last_attack: None }, weapon_two: None },
        ),
    }
}

/// A new health bar entity that belongs to `owner`.
pub open spec fn bar_entity(id: int, owner: int) -> EntityData {
    EntityData {
        id: EntityId(id as u64),
        parent: Some(EntityId(owner as u64)),
        transform: Transform { translation: Vector { x: 0, y: HEALTH_BAR_OFFSET_Y } },
        velocity: Velocity(Vector { x: 0, y: 0 }),
        collider: None,
        allegence: None,
        health: None,
        role: Role::HealthBar(HealthBar { health_entity: EntityId(owner as u64), width: HEALTH_BAR_WIDTH }),
    }
}

/// The spawner after `dt` more milliseconds.
pub open spec fn ticked_config(c: EnemySpawnConfig, dt: int) -> EnemySpawnConfig {
    EnemySpawnConfig {
        spawn_timer: if c.spawn_timer + dt <= u64::MAX { (c.spawn_timer + dt) as u64 } else { u64::MAX },
        ..c
    }
}

/// The spawner after it fired.
pub open spec fn fired_config(c: EnemySpawnConfig) -> EnemySpawnConfig {
    EnemySpawnConfig {
        spawn_timer: 0,
        spawn_interval: shrunk_interval(c.spawn_interval as int, c.spawn_difficulty as int) as u64,
        ..c
    }
}

/// Where a spawn at `offset` from the sole player lands, if there is a
/// sole player and the spot lies in the world.
pub open spec fn spawn_position(s: Seq<EntityData>, offset: Vector) -> Option<Vector> {
    match sole_player(s) {
        None => None,
        Some(p) => {
            let x = s[p].transform.translation.x + offset.x;
            let y = s[p].transform.translation.y + offset.y;
            if -COORD_LIMIT <= x <= COORD_LIMIT && -COORD_LIMIT <= y <= COORD_LIMIT {
                Some(Vector { x: x as i64, y: y as i64 })
            } else {
                None
            }
        },
    }
}

/// The spawn stage on an already ticked spawner: when it is due and there
/// is a place to spawn, an enemy and its health bar appear and the spawner
/// fires; otherwise the spawn waits for a later tick.
pub open spec fn spawned(s: Seq<EntityData>, next_id: int, c: EnemySpawnConfig, offset: Vector) -> (Seq<EntityData>, int, EnemySpawnConfig) {
    if c.due() && spawn_position(s, offset) is Some {
        (
            s.push(enemy_entity(next_id, next_id + 1, spawn_position(s, offset).unwrap())).push(
                bar_entity(next_id + 1, next_id),
            ),
            next_id + 2,
            fired_config(c),
        )
    } else {
        (s, next_id, c)
    }
}

/// What the input devices ask of the player in one tick: the four movement
/// keys, where the player aims (if the cursor is over the window) and
/// whether the attack button is held.
#[derive(Clone, Copy, Debug, PartialEq, Eq, Structural)]
pub struct PlayerInput {
    pub left: bool,
    pub right: bool,
    pub down: bool,
    pub up: bool,
    pub aim: Option<Vector>,
    pub attack: bool,
}

impl PlayerInput {
    pub open spec fn wf(self) -> bool {
        self.aim matches Some(a) ==> within(a, 2 * COORD_LIMIT)
    }
}

/// `a` lies within `d` of `b` along each axis.
pub open spec fn near(a: Vector, b: Vector, d: int) -> bool {
    -d <= a.x - b.x <= d && -d <= a.y - b.y <= d
}

/// A thrown projectile as an entity.
pub open spec fn projectile_entity(b: ProjectileBundle, id: int) -> EntityData {
    EntityData {
        id: EntityId(id as u64),
        parent: None,
        transform: b.transform,
        velocity: b.velocity,
        collider: Some(b.collider),
        allegence: Some(b.allegence),
        health: None,
        role: Role::Projectile(b.projectile),
    }
}

/// The player throws at `now`: the attack is asked for with an aim, the
/// weapon is ready, and the throw stays inside the world.
pub open spec fn throws(e: EntityData, input: PlayerInput, now: int) -> bool {
    &&& input.attack
    &&& input.aim is Some
    &&& e.role->Player_0.weapon_one.ready(now)
    &&& throw_fits(e.transform.translation)
}

/// The input stage: the sole player's velocity follows the movement keys,
/// and it throws its first weapon toward the aim if it may.
pub open spec fn after_input(s: Seq<EntityData>, next_id: int, input: PlayerInput, now: int) -> (Seq<EntityData>, int) {
    match sole_player(s) {
        None => (s, next_id),
        Some(p) => {
            let e = s[p];
            let pl = e.role->Player_0;
            let v = Velocity(scaled(key_direction(input.left, input.right, input.down, input.up), pl.speed as int));
            if throws(e, input, now) {
                let pl2 = Player { weapon_one: PlayerWeapon::Axe { last_attack: Some(now as u64) }, ..pl };
                (
                    s.update(p, EntityData { velocity: v, role: Role::Player(pl2), ..e }).push(
                        projectile_entity(axe_projectile(e.transform.translation, input.aim.unwrap()), next_id),
                    ),
                    next_id + 1,
                )
            } else {
                (s.update(p, EntityData { velocity: v, ..e }), next_id)
            }
        },
    }
}

/// Longest tick, in milliseconds (about seventeen minutes).
pub const MAX_TICK_MS: u64 = 1_048_576;

/// How far from the world's edge every entity must stand for one tick of
/// `dt` milliseconds: the farthest anything moves, plus the throw offset.
pub open spec fn tick_margin(dt: int) -> int {
    SPEED_LIMIT * dt + AXE_FORWARD_OFFSET
}

/// One tick of `dt` milliseconds fits in the machine's numbers: ids remain
/// for the entities it may create, and nothing can leave the world.
pub open spec fn room_for_tick(s: Seq<EntityData>, next_id: int, dt: int) -> bool {
    &&& 0 <= dt <= MAX_TICK_MS
    &&& next_id + 3 <= u64::MAX
    &&& forall|i: int| 0 <= i < s.len() ==> within(#[trigger] s[i].transform.translation, COORD_LIMIT - tick_margin(dt))
}

/// The stages of a tick, in the order they run.
#[derive(Clone, Copy, Debug, PartialEq, Eq, Structural)]
pub enum GameSet {
    PlayerInput,
    Physics,
    Ai,
    DealDamage,
    ResolveDamage,
    Ui,
}

pub open spec fn stage_sequence() -> Seq<GameSet> {
    seq![
        GameSet::PlayerInput,
        GameSet::Physics,
        GameSet::Ai,
        GameSet::DealDamage,
        GameSet::ResolveDamage,
        GameSet::Ui,
    ]
}

/// The order in which a tick runs its stages; each one reads what the
/// previous ones wrote.
pub fn stage_order() -> (r: Vec<GameSet>)
    ensures
        r@ == stage_sequence(),
{
    let r = vec![
        GameSet::PlayerInput,
        GameSet::Physics,
        GameSet::Ai,
        GameSet::DealDamage,
        GameSet::ResolveDamage,
        GameSet::Ui,
    ];
    assert(r@ =~= stage_sequence());
    r
}

/// One whole tick: the entities, the next id, the spawner, and the damage
/// events of the tick, after input, physics, AI (steering, then spawning),
/// dealing damage (melee, then projectiles), and resolving it.
pub open spec fn ticked(
    s: Seq<EntityData>,
    next_id: int,
    c: EnemySpawnConfig,
    input: PlayerInput,
    dt: int,
    now: int,
    offset: Vector,
) -> (Seq<EntityData>, int, EnemySpawnConfig, Seq<EntityTookDamage>) {
    let (s1, n1) = after_input(s, next_id, input, now);
    let s2 = moved(s1, dt);
    let s3 = followed(s2);
    let (s4, n4, c4) = spawned(s3, n1, ticked_config(c, dt), offset);
    let s5 = after_melee(s4, now);
    let evs = melee_events(s4, now) + projectile_events(s5);
    (resolved(after_projectiles(s5), evs), n4, c4, evs)
}

} // verus!
