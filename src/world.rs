//! The entity store and the per-tick stages that run over it.

use vstd::prelude::*;

use crate::enemy::{Enemy, EnemySpawnConfig, ENEMY_HEALTH, ENEMY_RADIUS};
use crate::entity::{EnitityAllegence, EntityId, EntityTookDamage};
use crate::geometry::{scale_to, scaled, within, Vector, COORD_LIMIT, SPEED_LIMIT};
use crate::health::{Health, HealthBar};
use crate::physics::{Collider, Transform, Velocity};
use crate::player::{input_velocity, Player, PLAYER_HEALTH, PLAYER_RADIUS};
use crate::weapon::{Projectile, ProjectileBundle, AXE_FORWARD_OFFSET};
use crate::stages::{doomed_ids, parent_older, EntityData, HEALTH_BAR_OFFSET_Y, HEALTH_BAR_WIDTH, MAX_TICK_MS, PlayerInput, Role, after_input, after_melee, after_projectiles, bar_entity, can_hit, chase_velocity, despawned, enemy_entity, entity_ok, first_hit_in, first_player_in, first_with_id, followed, no_healing, hit_fn, is_player, lemma_filter_ok, lemma_first_hit_in, lemma_first_hit_stable, lemma_first_player_in, lemma_first_with_id, lemma_first_with_id_stable, melee_event, melee_events, melee_fn, move_entity, move_fits, moved, near, player_entity, players_in, projectile_events, resolved, room_for_tick, sole_player, spawned, survives_fn, throws, tick_margin, ticked, ticked_config, unspent_fn, with_id, with_last_melee, world_ok};

verus! {

/// The store of all entities. `next_id` is the id the next spawned entity
/// gets; ids are handed out in increasing order.
pub struct World {
    pub entities: Vec<EntityData>,
    pub next_id: u64,
}

impl World {
    pub open spec fn wf(&self) -> bool {
        world_ok(self.entities@, self.next_id as int)
    }

    pub fn new() -> (r: World)
        ensures
            r.entities@.len() == 0,
            r.next_id == 0,
            r.wf(),
    {
        World { entities: Vec::new(), next_id: 0 }
    }

    /// The index of the player, if there is exactly one.
    pub fn player_index(&self) -> (r: Option<usize>)
        ensures
            match r {
                Some(k) => sole_player(self.entities@) == Some(k as int),
                None => sole_player(self.entities@).is_none(),
            },
            r matches Some(k) ==> k < self.entities@.len() && is_player(self.entities@[k as int]),
    {
        let n = self.entities.len();
        let mut count: usize = 0;
        let mut first: Option<usize> = None;
        let mut i: usize = 0;
        while i < n
            invariant
                n == self.entities@.len(),
                i <= n,
                count == players_in(self.entities@, i as int),
                count <= i,
                match first {
                    Some(k) => first_player_in(self.entities@, i as int) == Some(k as int),
                    None => first_player_in(self.entities@, i as int).is_none(),
                },
            decreases n - i,
        {
            let is_p = match self.entities[i].role {
                Role::Player(_) => true,
                _ => false,
            };
            if is_p {
                count = count + 1;
                if first.is_none() {
                    first = Some(i);
                }
            }
            i = i + 1;
        }
        proof {
            lemma_first_player_in(self.entities@, n as int);
        }
        if count == 1 {
            first
        } else {
            None
        }
    }

    /// Whether every entity stays inside the world when moved for `dt`.
    pub fn motion_fits(&self, dt: u64) -> (r: bool)
        requires
            self.wf(),
        ensures
            r == forall|i: int| 0 <= i < self.entities@.len() ==> move_fits(#[trigger] self.entities@[i], dt as int),
    {
        let n = self.entities.len();
        let mut i: usize = 0;
        while i < n
            invariant
                n == self.entities@.len(),
                i <= n,
                self.wf(),
                forall|j: int| 0 <= j < i ==> move_fits(#[trigger] self.entities@[j], dt as int),
            decreases n - i,
        {
            let e = self.entities[i];
            assert(entity_ok(self.entities@[i as int]));
            let vx: i128 = e.velocity.0.x as i128;
            let vy: i128 = e.velocity.0.y as i128;
            let d: i128 = dt as i128;
            assert(-SPEED_LIMIT * 18_446_744_073_709_551_615int <= vx * d <= SPEED_LIMIT * 18_446_744_073_709_551_615int
                && -SPEED_LIMIT * 18_446_744_073_709_551_615int <= vy * d <= SPEED_LIMIT * 18_446_744_073_709_551_615int)
                by (nonlinear_arith)
                requires
                    -SPEED_LIMIT <= vx <= SPEED_LIMIT,
                    -SPEED_LIMIT <= vy <= SPEED_LIMIT,
                    0 <= d <= 18_446_744_073_709_551_615int,
            ;
            let x: i128 = e.transform.translation.x as i128 + vx * d;
            let y: i128 = e.transform.translation.y as i128 + vy * d;
            let lim: i128 = COORD_LIMIT as i128;
            if !(-lim <= x && x <= lim && -lim <= y && y <= lim) {
                return false;
            }
            i = i + 1;
        }
        true
    }

    /// The integrator: every entity moves by its velocity times `dt`
    /// milliseconds, exactly; nothing else changes.
    pub fn update_positions(&mut self, dt: u64)
        requires
            old(self).wf(),
            forall|i: int| 0 <= i < old(self).entities@.len() ==> move_fits(#[trigger] old(self).entities@[i], dt as int),
        ensures
            final(self).entities@ == moved(old(self).entities@, dt as int),
            final(self).next_id == old(self).next_id,
            final(self).wf(),
    {
        let n = self.entities.len();
        let mut i: usize = 0;
        while i < n
            invariant
                n == self.entities@.len(),
                n == old(self).entities@.len(),
                i <= n,
                self.next_id == old(self).next_id,
                old(self).wf(),
                forall|j: int| 0 <= j < n ==> move_fits(#[trigger] old(self).entities@[j], dt as int),
                forall|j: int| 0 <= j < i ==> #[trigger] self.entities@[j] == move_entity(old(self).entities@[j], dt as int),
                forall|j: int| i <= j < n ==> #[trigger] self.entities@[j] == old(self).entities@[j],
            decreases n - i,
        {
            let e = self.entities[i];
            assert(move_fits(old(self).entities@[i as int], dt as int));
            assert(entity_ok(old(self).entities@[i as int]));
            let vx: i128 = e.velocity.0.x as i128;
            let vy: i128 = e.velocity.0.y as i128;
            let d: i128 = dt as i128;
            assert(-SPEED_LIMIT * 18_446_744_073_709_551_615int <= vx * d <= SPEED_LIMIT * 18_446_744_073_709_551_615int
                && -SPEED_LIMIT * 18_446_744_073_709_551_615int <= vy * d <= SPEED_LIMIT * 18_446_744_073_709_551_615int)
                by (nonlinear_arith)
                requires
                    -SPEED_LIMIT <= vx <= SPEED_LIMIT,
                    -SPEED_LIMIT <= vy <= SPEED_LIMIT,
                    0 <= d <= 18_446_744_073_709_551_615int,
            ;
            let x: i128 = e.transform.translation.x as i128 + vx * d;
            let y: i128 = e.transform.translation.y as i128 + vy * d;
            let moved_e = EntityData {
                transform: Transform { translation: Vector { x: x as i64, y: y as i64 } },
                ..e
            };
            self.entities.set(i, moved_e);
            i = i + 1;
        }
        assert(self.entities@ =~= moved(old(self).entities@, dt as int));
        assert forall|j: int| 0 <= j < self.entities@.len() implies entity_ok(#[trigger] self.entities@[j])
            && self.entities@[j].id.0 < self.next_id by {
            assert(entity_ok(old(self).entities@[j]));
            assert(move_fits(old(self).entities@[j], dt as int));
        }
    }

    /// Steering: every enemy's velocity points at the player, scaled to the
    /// enemy's speed (zero when they stand on the same spot).
    pub fn enemy_follow_player(&mut self)
        requires
            old(self).wf(),
        ensures
            final(self).entities@ == followed(old(self).entities@),
            final(self).next_id == old(self).next_id,
            final(self).wf(),
    {
        let p = match self.player_index() {
            Some(p) => p,
            None => return,
        };
        let target = self.entities[p].transform.translation;
        proof {
            assert(entity_ok(self.entities@[p as int]));
        }
        let n = self.entities.len();
        let mut i: usize = 0;
        while i < n
            invariant
                n == self.entities@.len(),
                n == old(self).entities@.len(),
                i <= n,
                self.next_id == old(self).next_id,
                old(self).wf(),
                within(target, COORD_LIMIT as int),
                p < n,
                target == old(self).entities@[p as int].transform.translation,
                world_ok(self.entities@, self.next_id as int),
                sole_player(old(self).entities@) == Some(p as int),
                forall|j: int| 0 <= j < i ==> #[trigger] self.entities@[j] == (EntityData {
                    velocity: chase_velocity(old(self).entities@[j], target),
                    ..old(self).entities@[j]
                }),
                forall|j: int| i <= j < n ==> #[trigger] self.entities@[j] == old(self).entities@[j],
            decreases n - i,
        {
            let e = self.entities[i];
            assert(entity_ok(old(self).entities@[i as int]));
            match e.role {
                Role::Enemy(enemy) => {
                    let d = Vector {
                        x: target.x - e.transform.translation.x,
                        y: target.y - e.transform.translation.y,
                    };
                    let v = scale_to(d, enemy.speed());
                    self.entities.set(i, EntityData { velocity: Velocity::from_vec(v), ..e });
                    assert(entity_ok(self.entities@[i as int]));
                },
                _ => {},
            }
            i = i + 1;
        }
        assert(self.entities@ =~= followed(old(self).entities@));
    }

    /// Melee: every enemy whose collider overlaps the player's and whose
    /// cooldown has passed at `now` hits the player for its melee damage and
    /// records `now`. Returns the hits in entity order.
    pub fn enemy_melee_player(&mut self, now: u64) -> (r: Vec<EntityTookDamage>)
        requires
            old(self).wf(),
        ensures
            r@ == melee_events(old(self).entities@, now as int),
            final(self).entities@ == after_melee(old(self).entities@, now as int),
            final(self).next_id == old(self).next_id,
            final(self).wf(),
            no_healing(r@),
    {
        let mut events: Vec<EntityTookDamage> = Vec::new();
        let p = match self.player_index() {
            Some(p) => p,
            None => {
                assert(events@ =~= melee_events(old(self).entities@, now as int));
                return events;
            },
        };
        let player = self.entities[p];
        let ghost s = old(self).entities@;
        let ghost f = melee_fn(player, now as int);
        proof {
            assert(entity_ok(s[p as int]));
        }
        let n = self.entities.len();
        let mut i: usize = 0;
        while i < n
            invariant
                n == self.entities@.len(),
                n == s.len(),
                s == old(self).entities@,
                i <= n,
                p < n,
                player == s[p as int],
                f == melee_fn(player, now as int),
                entity_ok(player),
                self.next_id == old(self).next_id,
                world_ok(s, self.next_id as int),
                world_ok(self.entities@, self.next_id as int),
                events@ == s.take(i as int).filter_map(f),
                no_healing(events@),
                forall|j: int| 0 <= j < i ==> #[trigger] self.entities@[j] == (if melee_event(player, s[j], now as int) is Some {
                    EntityData { role: Role::Enemy(with_last_melee(s[j].role->Enemy_0, now as int)), ..s[j] }
                } else {
                    s[j]
                }),
                forall|j: int| i <= j < n ==> #[trigger] self.entities@[j] == s[j],
            decreases n - i,
        {
            let e = self.entities[i];
            proof {
                assert(entity_ok(s[i as int]));
                s.lemma_filter_map_take_succ(f, i as int);
            }
            match e.role {
                Role::Enemy(enemy) => {
                    let hit = match (e.collider, player.collider) {
                        (Some(ec), Some(pc)) => ec.is_colliding(&e.transform, &pc, &player.transform)
                            && enemy.can_melee(now),
                        _ => false,
                    };
                    if hit {
                        let mut enemy2 = enemy;
                        enemy2.set_last_melee(now);
                        let ev = EntityTookDamage::new(player.id, enemy.melee_damage());
                        events.push(ev);
                        let e2 = EntityData { role: Role::Enemy(enemy2), ..e };
                        assert(enemy2 == with_last_melee(enemy, now as int));
                        self.entities.set(i, e2);
                        assert(entity_ok(self.entities@[i as int]));
                    }
                },
                _ => {},
            }
            i = i + 1;
        }
        assert(s.take(n as int) =~= s);
        assert(self.entities@ =~= after_melee(old(self).entities@, now as int));
        events
    }

    /// The first entity, in entity order, that projectile `p` may hit.
    fn first_target(&self, p: &EntityData) -> (r: Option<usize>)
        requires
            self.wf(),
            entity_ok(*p),
        ensures
            match r {
                Some(k) => first_hit_in(self.entities@, *p, self.entities@.len() as int) == Some(k as int),
                None => first_hit_in(self.entities@, *p, self.entities@.len() as int).is_none(),
            },
    {
        let (pc, pa) = match (p.collider, p.allegence) {
            (Some(pc), Some(pa)) => (pc, pa),
            _ => {
                assert(first_hit_in(self.entities@, *p, self.entities@.len() as int).is_none()) by {
                    lemma_first_hit_in(self.entities@, *p, self.entities@.len() as int);
                }
                return None;
            },
        };
        let n = self.entities.len();
        let mut j: usize = 0;
        while j < n
            invariant
                n == self.entities@.len(),
                j <= n,
                self.wf(),
                entity_ok(*p),
                p.collider == Some(pc),
                p.allegence == Some(pa),
                first_hit_in(self.entities@, *p, j as int).is_none(),
            decreases n - j,
        {
            let t = self.entities[j];
            assert(entity_ok(self.entities@[j as int]));
            let eligible = match (t.role, t.collider, t.allegence) {
                (Role::Projectile(_), _, _) => false,
                (_, Some(tc), Some(ta)) => ta != pa && tc.is_colliding(&t.transform, &pc, &p.transform),
                _ => false,
            };
            if eligible {
                proof {
                    assert(can_hit(*p, self.entities@[j as int]));
                    lemma_first_hit_stable(self.entities@, *p, j as int + 1, n as int);
                }
                return Some(j);
            }
            j = j + 1;
        }
        None
    }

    /// Projectiles: each projectile hits the first entity, in entity order,
    /// that it may hit (no other projectile, another side, overlapping), and
    /// is destroyed; so it hits at most once. Returns the hits in entity
    /// order.
    pub fn projectile_hurt_entity(&mut self) -> (r: Vec<EntityTookDamage>)
        requires
            old(self).wf(),
        ensures
            r@ == projectile_events(old(self).entities@),
            final(self).entities@ == after_projectiles(old(self).entities@),
            final(self).next_id == old(self).next_id,
            final(self).wf(),
            no_healing(r@),
    {
        let ghost s = old(self).entities@;
        let ghost f = hit_fn(s);
        let ghost keep = unspent_fn(s);
        let mut events: Vec<EntityTookDamage> = Vec::new();
        let mut kept: Vec<EntityData> = Vec::new();
        let n = self.entities.len();
        let mut i: usize = 0;
        while i < n
            invariant
                n == self.entities@.len(),
                self.entities@ == s,
                s == old(self).entities@,
                self.next_id == old(self).next_id,
                f == hit_fn(s),
                keep == unspent_fn(s),
                i <= n,
                world_ok(s, self.next_id as int),
                events@ == s.take(i as int).filter_map(f),
                kept@ == s.take(i as int).filter(keep),
                no_healing(events@),
            decreases n - i,
        {
            let e = self.entities[i];
            proof {
                assert(entity_ok(s[i as int]));
                s.lemma_filter_map_take_succ(f, i as int);
                assert(s.take(i as int + 1) =~= s.take(i as int).push(s[i as int]));
                s.take(i as int).lemma_filter_push(s[i as int], keep);
            }
            let target = match e.role {
                Role::Projectile(_) => self.first_target(&e),
                _ => None,
            };
            match (e.role, target) {
                (Role::Projectile(pr), Some(k)) => {
                    proof {
                        lemma_first_hit_in(s, e, n as int);
                    }
                    events.push(EntityTookDamage::new(self.entities[k].id, pr.damage()));
                },
                _ => {
                    kept.push(e);
                },
            }
            i = i + 1;
        }
        proof {
            assert(s.take(n as int) =~= s);
            lemma_filter_ok(s, self.next_id as int, keep);
        }
        self.entities = kept;
        events
    }

    /// Whether `ids` holds `id`.
    fn holds_id(ids: &Vec<EntityId>, id: EntityId) -> (r: bool)
        ensures
            r == ids@.contains(id),
    {
        let n = ids.len();
        let mut j: usize = 0;
        while j < n
            invariant
                n == ids@.len(),
                j <= n,
                forall|k: int| 0 <= k < j ==> ids@[k] != id,
            decreases n - j,
        {
            if ids[j] == id {
                return true;
            }
            j = j + 1;
        }
        false
    }

    /// Destroys `id` and all of its descendants.
    pub fn despawn_recursive(&mut self, id: EntityId)
        requires
            old(self).wf(),
        ensures
            final(self).entities@ == despawned(old(self).entities@, id),
            final(self).next_id == old(self).next_id,
            final(self).wf(),
    {
        let ghost s = old(self).entities@;
        let n = self.entities.len();
        let mut doomed: Vec<EntityId> = Vec::new();
        let mut i: usize = 0;
        while i < n
            invariant
                n == self.entities@.len(),
                self.entities@ == s,
                i <= n,
                doomed@ == doomed_ids(s, id, i as int),
            decreases n - i,
        {
            let e = self.entities[i];
            let goes = if e.id == id {
                true
            } else {
                match e.parent {
                    Some(q) => Self::holds_id(&doomed, q),
                    None => false,
                }
            };
            if goes {
                doomed.push(e.id);
            }
            i = i + 1;
        }
        let ghost keep = survives_fn(doomed@);
        let mut kept: Vec<EntityData> = Vec::new();
        let mut i: usize = 0;
        while i < n
            invariant
                n == self.entities@.len(),
                self.entities@ == s,
                s == old(self).entities@,
                self.next_id == old(self).next_id,
                doomed@ == doomed_ids(s, id, n as int),
                keep == survives_fn(doomed@),
                i <= n,
                world_ok(s, self.next_id as int),
                kept@ == s.take(i as int).filter(keep),
            decreases n - i,
        {
            let e = self.entities[i];
            proof {
                assert(s.take(i as int + 1) =~= s.take(i as int).push(s[i as int]));
                s.take(i as int).lemma_filter_push(s[i as int], keep);
            }
            if !Self::holds_id(&doomed, e.id) {
                kept.push(e);
            }
            i = i + 1;
        }
        proof {
            assert(s.take(n as int) =~= s);
            lemma_filter_ok(s, self.next_id as int, keep);
        }
        self.entities = kept;
    }

    /// The index of the first entity with id `id`.
    pub fn index_of(&self, id: EntityId) -> (r: Option<usize>)
        ensures
            match r {
                Some(k) => first_with_id(self.entities@, id, self.entities@.len() as int) == Some(k as int),
                None => first_with_id(self.entities@, id, self.entities@.len() as int).is_none(),
            },
            r matches Some(k) ==> k < self.entities@.len(),
    {
        let n = self.entities.len();
        let mut j: usize = 0;
        while j < n
            invariant
                n == self.entities@.len(),
                j <= n,
                first_with_id(self.entities@, id, j as int).is_none(),
            decreases n - j,
        {
            if self.entities[j].id == id {
                proof {
                    lemma_first_with_id_stable(self.entities@, id, j as int + 1, n as int);
                }
                return Some(j);
            }
            j = j + 1;
        }
        None
    }

    /// The resolver: applies each event in order to its target's health; a
    /// target that dies is destroyed with all of its descendants (see
    /// `lemma_despawn_cascades`), and an event whose target is gone (or has
    /// no health) is dropped.
    pub fn take_damage(&mut self, events: &Vec<EntityTookDamage>)
        requires
            old(self).wf(),
            no_healing(events@),
        ensures
            final(self).entities@ == resolved(old(self).entities@, events@),
            final(self).next_id == old(self).next_id,
            final(self).wf(),
    {
        let n = events.len();
        let mut i: usize = 0;
        while i < n
            invariant
                n == events@.len(),
                i <= n,
                no_healing(events@),
                self.wf(),
                self.next_id == old(self).next_id,
                self.entities@ == resolved(old(self).entities@, events@.take(i as int)),
            decreases n - i,
        {
            let ev = events[i];
            let ghost before = self.entities@;
            proof {
                assert(events@.take(i as int + 1).drop_last() =~= events@.take(i as int));
                assert(events@.take(i as int + 1).last() == ev);
                assert(ev.damage >= 0);
            }
            match self.index_of(ev.entity) {
                Some(k) => {
                    proof {
                        lemma_first_with_id(before, ev.entity, before.len() as int);
                        assert(entity_ok(before[k as int]));
                    }
                    let e = self.entities[k];
                    match e.health {
                        Some(h) => {
                            let mut h2 = h;
                            h2.damage(ev.damage);
                            if h2.is_dead() {
                                self.despawn_recursive(ev.entity);
                            } else {
                                self.entities.set(k, EntityData { health: Some(h2), ..e });
                                assert(entity_ok(self.entities@[k as int]));
                                assert(self.wf());
                            }
                        },
                        None => {},
                    }
                },
                None => {},
            }
            i = i + 1;
        }
        assert(events@.take(n as int) =~= events@);
    }

    /// Adds `data` under the next free id and returns that id.
    pub fn spawn(&mut self, data: EntityData) -> (r: EntityId)
        requires
            old(self).wf(),
            entity_ok(data),
            data.parent matches Some(q) ==> q.0 < old(self).next_id,
            old(self).next_id < u64::MAX,
        ensures
            r == EntityId(old(self).next_id),
            final(self).entities@ == old(self).entities@.push(with_id(data, old(self).next_id as int)),
            final(self).next_id == old(self).next_id + 1,
            final(self).wf(),
    {
        let id = EntityId(self.next_id);
        self.entities.push(EntityData { id, ..data });
        self.next_id = self.next_id + 1;
        id
    }

    /// Adds the player at `pos`, with its health bar as a child; returns
    /// the player's id.
    pub fn spawn_player(&mut self, pos: Vector) -> (r: EntityId)
        requires
            old(self).wf(),
            old(self).next_id + 2 <= u64::MAX,
            within(pos, COORD_LIMIT as int),
        ensures
            r == EntityId(old(self).next_id),
            final(self).entities@ == old(self).entities@.push(player_entity(old(self).next_id as int, pos)).push(
                bar_entity(old(self).next_id + 1, old(self).next_id as int),
            ),
            final(self).next_id == old(self).next_id + 2,
            final(self).wf(),
    {
        let ghost s0 = self.entities@;
        let ghost n0 = self.next_id as int;
        let player = EntityData {
            id: EntityId(0),
            parent: None,
            transform: Transform::from_translation(pos),
            velocity: Velocity::zero(),
            collider: Some(Collider::circle(PLAYER_RADIUS)),
            allegence: Some(EnitityAllegence::Player),
            health: Some(Health::new(PLAYER_HEALTH)),
            role: Role::Player(Player::new()),
        };
        let id = self.spawn(player);
        self.spawn_bar(id);
        assert(self.entities@ =~= s0.push(player_entity(n0, pos)).push(bar_entity(n0 + 1, n0)));
        id
    }

    /// Adds a health bar for `owner`.
    fn spawn_bar(&mut self, owner: EntityId) -> (r: EntityId)
        requires
            old(self).wf(),
            owner.0 < old(self).next_id,
            old(self).next_id < u64::MAX,
        ensures
            r == EntityId(old(self).next_id),
            final(self).entities@ == old(self).entities@.push(bar_entity(old(self).next_id as int, owner.0 as int)),
            final(self).next_id == old(self).next_id + 1,
            final(self).wf(),
    {
        let bar = EntityData {
            id: EntityId(0),
            parent: Some(owner),
            transform: Transform::from_translation(Vector { x: 0, y: HEALTH_BAR_OFFSET_Y }),
            velocity: Velocity::zero(),
            collider: None,
            allegence: None,
            health: None,
            role: Role::HealthBar(HealthBar::new(owner, HEALTH_BAR_WIDTH)),
        };
        self.spawn(bar)
    }

    /// Adds a table enemy at `pos`, with its health bar as a child; returns
    /// the enemy's id.
    pub fn spawn_table(&mut self, pos: Vector) -> (r: EntityId)
        requires
            old(self).wf(),
            old(self).next_id + 2 <= u64::MAX,
            within(pos, COORD_LIMIT as int),
        ensures
            r == EntityId(old(self).next_id),
            final(self).entities@ == old(self).entities@.push(
                enemy_entity(old(self).next_id as int, old(self).next_id + 1, pos),
            ).push(bar_entity(old(self).next_id + 1, old(self).next_id as int)),
            final(self).next_id == old(self).next_id + 2,
            final(self).wf(),
            forall|i: int| 0 <= i < final(self).entities@.len() && (#[trigger] final(self).entities@[i]).parent == Some(r)
                ==> i == final(self).entities@.len() - 1,
    {
        let ghost s0 = self.entities@;
        let ghost n0 = self.next_id as int;
        proof {
            assert forall|i: int| 0 <= i < s0.len() implies (#[trigger] s0[i]).parent != Some(EntityId(n0 as u64)) by {
                assert(parent_older(s0[i]) && s0[i].id.0 < n0);
            }
        }
        let bar_id = EntityId(self.next_id + 1);
        let enemy = EntityData {
            id: EntityId(0),
            parent: None,
            transform: Transform::from_translation(pos),
            velocity: Velocity::zero(),
            collider: Some(Collider::circle(ENEMY_RADIUS)),
            allegence: Some(EnitityAllegence::Enemy),
            health: Some(Health::new(ENEMY_HEALTH)),
            role: Role::Enemy(Enemy::Table { last_melee: 0, health_entity: bar_id }),
        };
        let id = self.spawn(enemy);
        self.spawn_bar(id);
        assert(self.entities@ =~= s0.push(enemy_entity(n0, n0 + 1, pos)).push(bar_entity(n0 + 1, n0)));
        id
    }

    /// The entity with id `id`, if it exists.
    pub fn get(&self, id: EntityId) -> (r: Option<EntityData>)
        ensures
            r == (match first_with_id(self.entities@, id, self.entities@.len() as int) {
                Some(k) => Some(self.entities@[k]),
                None => None,
            }),
    {
        match self.index_of(id) {
            Some(k) => Some(self.entities[k]),
            None => None,
        }
    }

    /// The spawn stage: the spawner's timer advances by `dt`; once it is
    /// due and a sole player exists, a table enemy appears at the player's
    /// position plus `offset` (drawn by the caller: a fixed distance at a
    /// random angle), with its health bar as a child, and the spawner fires,
    /// shrinking its interval. Without a player the spawn waits.
    pub fn spawn_enemy(&mut self, config: &mut EnemySpawnConfig, dt: u64, offset: Vector) -> (r: Option<EntityId>)
        requires
            old(self).wf(),
            old(config).wf(),
            old(self).next_id + 2 <= u64::MAX,
            within(offset, COORD_LIMIT as int),
        ensures
            ({
                let (s2, n2, c2) = spawned(old(self).entities@, old(self).next_id as int, ticked_config(*old(config), dt as int), offset);
                &&& final(self).entities@ == s2
                &&& final(self).next_id == n2
                &&& *final(config) == c2
            }),
            r == (if final(self).next_id == old(self).next_id { None } else { Some(EntityId(old(self).next_id)) }),
            r matches Some(e) ==> forall|i: int| 0 <= i < final(self).entities@.len()
                && (#[trigger] final(self).entities@[i]).parent == Some(e) ==> i == final(self).entities@.len() - 1,
            final(self).wf(),
            final(config).wf(),
    {
        config.tick(dt);
        if !config.finished() {
            return None;
        }
        let p = match self.player_index() {
            Some(p) => p,
            None => return None,
        };
        let base = self.entities[p].transform.translation;
        proof {
            assert(entity_ok(self.entities@[p as int]));
        }
        let x: i64 = base.x + offset.x;
        let y: i64 = base.y + offset.y;
        if !(-COORD_LIMIT <= x && x <= COORD_LIMIT && -COORD_LIMIT <= y && y <= COORD_LIMIT) {
            return None;
        }
        let id = self.spawn_table(Vector { x, y });
        config.reset();
        Some(id)
    }

    /// The input stage: the sole player's velocity becomes the movement
    /// keys' direction at the player's speed, and if the attack is asked
    /// for with an aim and the weapon is ready at `now`, the weapon throws a
    /// projectile toward the aim.
    pub fn player_input(&mut self, input: &PlayerInput, now: u64)
        requires
            old(self).wf(),
            input.wf(),
            old(self).next_id + 1 <= u64::MAX,
        ensures
            ({
                let (s2, n2) = after_input(old(self).entities@, old(self).next_id as int, *input, now as int);
                &&& final(self).entities@ == s2
                &&& final(self).next_id == n2
            }),
            final(self).wf(),
            final(self).entities@.len() >= old(self).entities@.len(),
            forall|i: int| 0 <= i < old(self).entities@.len() ==> #[trigger] final(self).entities@[i].transform
                == old(self).entities@[i].transform,
            forall|i: int| old(self).entities@.len() <= i < final(self).entities@.len() ==> (sole_player(old(self).entities@) matches Some(p)
                && 0 <= p < old(self).entities@.len()
                && near(#[trigger] final(self).entities@[i].transform.translation, old(self).entities@[p].transform.translation, AXE_FORWARD_OFFSET as int)),
    {
        let p = match self.player_index() {
            Some(p) => p,
            None => return,
        };
        let e = self.entities[p];
        proof {
            assert(entity_ok(self.entities@[p as int]));
        }
        let mut player = match e.role {
            Role::Player(pl) => pl,
            _ => return,
        };
        let v = input_velocity(input.left, input.right, input.down, input.up, player.speed());
        let origin = e.transform.translation;
        let lim: i64 = COORD_LIMIT - crate::weapon::AXE_FORWARD_OFFSET;
        let fits = -lim <= origin.x && origin.x <= lim && -lim <= origin.y && origin.y <= lim;
        let thrown: Option<ProjectileBundle> = match input.aim {
            Some(aim) => if input.attack && fits {
                player.weapon_one_mut().attack(now, origin, aim)
            } else {
                None
            },
            None => None,
        };
        self.entities.set(p, EntityData { velocity: v, role: Role::Player(player), ..e });
        proof {
            assert(entity_ok(self.entities@[p as int]));
            assert(world_ok(self.entities@, self.next_id as int));
        }
        match thrown {
            Some(b) => {
                let data = EntityData {
                    id: EntityId(0),
                    parent: None,
                    transform: b.transform,
                    velocity: b.velocity,
                    collider: Some(b.collider),
                    allegence: Some(b.allegence),
                    health: None,
                    role: Role::Projectile(b.projectile),
                };
                self.spawn(data);
            },
            None => {},
        }
        proof {
            lemma_first_player_in(old(self).entities@, old(self).entities@.len() as int);
        }
    }

    /// Whether one tick of `dt` milliseconds fits (see `room_for_tick`).
    pub fn has_room_for_tick(&self, dt: u64) -> (r: bool)
        ensures
            r == room_for_tick(self.entities@, self.next_id as int, dt as int),
    {
        if dt > MAX_TICK_MS || self.next_id > u64::MAX - 3 {
            return false;
        }
        let m: i64 = SPEED_LIMIT * (dt as i64) + AXE_FORWARD_OFFSET;
        let lim: i64 = COORD_LIMIT - m;
        let n = self.entities.len();
        let mut i: usize = 0;
        while i < n
            invariant
                n == self.entities@.len(),
                i <= n,
                lim == COORD_LIMIT - tick_margin(dt as int),
                forall|j: int| 0 <= j < i ==> within(#[trigger] self.entities@[j].transform.translation, lim as int),
            decreases n - i,
        {
            let t = self.entities[i].transform.translation;
            if !(-lim <= t.x && t.x <= lim && -lim <= t.y && t.y <= lim) {
                return false;
            }
            i = i + 1;
        }
        true
    }

    /// Runs one tick of `dt` milliseconds ending at time `now`, stage by
    /// stage in the fixed order; `offset` is where an enemy spawned this
    /// tick appears relative to the player. Returns the damage events that
    /// were resolved. No health changes are visible to the caller before all
    /// of them are applied.
    pub fn tick(
        &mut self,
        config: &mut EnemySpawnConfig,
        input: &PlayerInput,
        dt: u64,
        now: u64,
        offset: Vector,
    ) -> (r: Vec<EntityTookDamage>)
        requires
            old(self).wf(),
            old(config).wf(),
            input.wf(),
            within(offset, COORD_LIMIT as int),
            room_for_tick(old(self).entities@, old(self).next_id as int, dt as int),
        ensures
            ({
                let (s2, n2, c2, evs) = ticked(old(self).entities@, old(self).next_id as int, *old(config), *input, dt as int, now as int, offset);
                &&& final(self).entities@ == s2
                &&& final(self).next_id == n2
                &&& *final(config) == c2
                &&& r@ == evs
            }),
            final(self).wf(),
            final(config).wf(),
    {
        let ghost s0 = self.entities@;
        self.player_input(input, now);
        let ghost s1 = self.entities@;
        proof {
            assert forall|i: int| 0 <= i < s1.len() implies move_fits(#[trigger] s1[i], dt as int) by {
                assert(entity_ok(s1[i]));
                let t = s1[i].transform.translation;
                let v = s1[i].velocity.0;
                if i < s0.len() {
                    assert(s1[i].transform == s0[i].transform);
                    assert(within(s0[i].transform.translation, COORD_LIMIT - tick_margin(dt as int)));
                } else {
                    let p = sole_player(s0).unwrap();
                    assert(within(s0[p].transform.translation, COORD_LIMIT - tick_margin(dt as int)));
                }
                assert(-SPEED_LIMIT * dt <= v.x * dt <= SPEED_LIMIT * dt && -SPEED_LIMIT * dt <= v.y * dt <= SPEED_LIMIT * dt)
                    by (nonlinear_arith)
                    requires
                        -SPEED_LIMIT <= v.x <= SPEED_LIMIT,
                        -SPEED_LIMIT <= v.y <= SPEED_LIMIT,
                        0 <= dt,
                ;
            }
        }
        self.update_positions(dt);
        self.enemy_follow_player();
        self.spawn_enemy(config, dt, offset);
        let mut events = self.enemy_melee_player(now);
        let mut hits = self.projectile_hurt_entity();
        let ghost e1 = events@;
        let ghost e2 = hits@;
        events.append(&mut hits);
        assert(no_healing(events@)) by {
            assert forall|i: int| 0 <= i < events@.len() implies (#[trigger] events@[i]).damage >= 0 by {
                if i < e1.len() {
                    assert(events@[i] == e1[i]);
                } else {
                    assert(events@[i] == e2[i - e1.len()]);
                }
            }
        }
        self.take_damage(&events);
        events
    }

    /// The width the health bar `bar` should have now: proportional to its
    /// owner's remaining health. `None` if `bar` is no health bar or its
    /// owner (or the owner's health) is gone.
    pub fn health_bar_width(&self, bar: EntityId) -> (r: Option<i64>)
        requires
            self.wf(),
        ensures
            r == (match first_with_id(self.entities@, bar, self.entities@.len() as int) {
                Some(k) => match self.entities@[k].role {
                    Role::HealthBar(hb) => match first_with_id(self.entities@, hb.health_entity, self.entities@.len() as int) {
                        Some(o) => match self.entities@[o].health {
                            Some(h) => Some(crate::health::bar_width(hb.width as int, h) as i64),
                            None => None,
                        },
                        None => None,
                    },
                    _ => None,
                },
                None => None,
            }),
    {
        let k = match self.index_of(bar) {
            Some(k) => k,
            None => return None,
        };
        proof {
            lemma_first_with_id(self.entities@, bar, self.entities@.len() as int);
            assert(entity_ok(self.entities@[k as int]));
        }
        let hb = match self.entities[k].role {
            Role::HealthBar(hb) => hb,
            _ => return None,
        };
        let o = match self.index_of(hb.health_entity) {
            Some(o) => o,
            None => return None,
        };
        proof {
            lemma_first_with_id(self.entities@, hb.health_entity, self.entities@.len() as int);
            assert(entity_ok(self.entities@[o as int]));
        }
        match self.entities[o].health {
            Some(h) => Some(hb.width_for(&h)),
            None => None,
        }
    }
}

} // verus!
