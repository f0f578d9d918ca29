//! Enemies: their per-kind constants and melee readiness.

use vstd::prelude::*;

use crate::entity::EntityId;
use crate::geometry::UNIT;

verus! {

/// Table speed: 25 world units per second.
pub const TABLE_SPEED: i64 = 25_000;

/// Table melee range: 64 world units.
pub const TABLE_MELEE_RANGE: i64 = 64 * UNIT;

pub const TABLE_MELEE_DAMAGE: i32 = 10;

/// Table melee cooldown, in milliseconds.
pub const TABLE_MELEE_COOLDOWN_MS: u64 = 100;

/// Radius of an enemy's collider: 32 world units.
pub const ENEMY_RADIUS: i64 = 32 * UNIT;

/// Hit points an enemy starts with.
pub const ENEMY_HEALTH: i32 = 100;

/// An enemy kind, with the time of its last melee hit in milliseconds and
/// the entity of its health bar.
#[derive(Clone, Copy, Debug, PartialEq, Eq, Structural)]
pub enum Enemy {
    Table { last_melee: u64, health_entity: EntityId },
}

impl Enemy {
    pub open spec fn speed_of(self) -> int {
        match self {
            Enemy::Table { .. } => TABLE_SPEED as int,
        }
    }

    pub open spec fn damage_of(self) -> int {
        match self {
            Enemy::Table { .. } => TABLE_MELEE_DAMAGE as int,
        }
    }

    pub open spec fn cooldown_of(self) -> int {
        match self {
            Enemy::Table { .. } => TABLE_MELEE_COOLDOWN_MS as int,
        }
    }

    pub open spec fn last_melee_time(self) -> int {
        match self {
            Enemy::Table { last_melee, .. } => last_melee as int,
        }
    }

    /// Strictly more than the cooldown has passed since the last hit.
    pub open spec fn melee_ready(self, now: int) -> bool {
        now - self.last_melee_time() > self.cooldown_of()
    }

    pub fn speed(&self) -> (r: i64)
        ensures
            r == self.speed_of(),
    {
        match self {
            Enemy::Table { .. } => TABLE_SPEED,
        }
    }

    pub fn melee_range(&self) -> (r: i64)
        ensures
            r == TABLE_MELEE_RANGE,
    {
        match self {
            Enemy::Table { .. } => TABLE_MELEE_RANGE,
        }
    }

    pub fn melee_damage(&self) -> (r: i32)
        ensures
            r == self.damage_of(),
    {
        match self {
            Enemy::Table { .. } => TABLE_MELEE_DAMAGE,
        }
    }

    pub fn melee_cooldown(&self) -> (r: u64)
        ensures
            r == self.cooldown_of(),
    {
        match self {
            Enemy::Table { .. } => TABLE_MELEE_COOLDOWN_MS,
        }
    }

    pub fn last_melee(&self) -> (r: u64)
        ensures
            r == self.last_melee_time(),
    {
        match self {
            Enemy::Table { last_melee, .. } => *last_melee,
        }
    }

    pub fn can_melee(&self, time: u64) -> (r: bool)
        ensures
            r == self.melee_ready(time as int),
    {
        let last = self.last_melee();
        time > last && time - last > self.melee_cooldown()
    }

    pub fn set_last_melee(&mut self, time: u64)
        ensures
            *final(self) == match *old(self) {
                Enemy::Table { health_entity, .. } => Enemy::Table { last_melee: time, health_entity },
            },
            final(self).last_melee_time() == time,
    {
        match self {
            Enemy::Table { last_melee, .. } => *last_melee = time,
        }
    }
}

/// The whole-degree angle, in `[0, 360)`, at which a random draw places
/// the next spawn around the player.
pub fn spawn_angle_degrees(draw: u32) -> (r: u32)
    ensures
        r == draw % 360,
        r < 360,
{
    draw % 360
}

/// Smallest interval the spawner shrinks to, in milliseconds.
pub const MIN_SPAWN_INTERVAL_MS: u64 = 100;

/// The spawn interval after one spawn: shrunk by `difficulty` thousandths,
/// rounded down, but not below the floor (nor raised to it).
pub open spec fn shrunk_interval(interval: int, difficulty: int) -> int {
    let next = interval * (1000 - difficulty) / 1000;
    if next >= MIN_SPAWN_INTERVAL_MS {
        next
    } else if interval >= MIN_SPAWN_INTERVAL_MS {
        MIN_SPAWN_INTERVAL_MS as int
    } else {
        interval
    }
}

/// The spawner: fires once `spawn_timer` (elapsed milliseconds) reaches
/// `spawn_interval`; each spawn shrinks the interval by `spawn_difficulty`
/// thousandths.
#[derive(Clone, Copy, Debug, PartialEq, Eq, Structural)]
pub struct EnemySpawnConfig {
    pub spawn_interval: u64,
    pub spawn_difficulty: u64,
    pub spawn_timer: u64,
}

impl EnemySpawnConfig {
    pub open spec fn wf(self) -> bool {
        0 < self.spawn_interval && 0 < self.spawn_difficulty < 1000
    }

    pub open spec fn due(self) -> bool {
        self.spawn_timer >= self.spawn_interval
    }

    pub fn new(spawn_interval: u64, spawn_difficulty: u64) -> (r: EnemySpawnConfig)
        requires
            0 < spawn_interval,
            0 < spawn_difficulty < 1000,
        ensures
            r.spawn_interval == spawn_interval,
            r.spawn_difficulty == spawn_difficulty,
            r.spawn_timer == 0,
            r.wf(),
    {
        EnemySpawnConfig { spawn_interval, spawn_difficulty, spawn_timer: 0 }
    }

    /// Adds `delta` milliseconds to the timer (saturating at the largest
    /// representable time).
    pub fn tick(&mut self, delta: u64)
        ensures
            final(self).spawn_timer == if old(self).spawn_timer + delta <= u64::MAX {
                old(self).spawn_timer + delta
            } else {
                u64::MAX as int
            },
            final(self).spawn_interval == old(self).spawn_interval,
            final(self).spawn_difficulty == old(self).spawn_difficulty,
    {
        self.spawn_timer = self.spawn_timer.saturating_add(delta);
    }

    /// After a spawn: the timer restarts and the interval shrinks.
    pub fn reset(&mut self)
        requires
            old(self).wf(),
        ensures
            final(self).spawn_timer == 0,
            final(self).spawn_interval == shrunk_interval(
                old(self).spawn_interval as int,
                old(self).spawn_difficulty as int,
            ),
            final(self).spawn_difficulty == old(self).spawn_difficulty,
            final(self).wf(),
    {
        self.spawn_timer = 0;
        let i: u128 = self.spawn_interval as u128;
        let d: u128 = self.spawn_difficulty as u128;
        assert(i * (1000 - d) <= i * 1000) by (nonlinear_arith)
            requires
                d < 1000,
        ;
        let next: u128 = i * (1000 - d) / 1000;
        assert(next <= i) by (nonlinear_arith)
            requires
                next == i * (1000 - d) / 1000,
                i * (1000 - d) <= i * 1000,
        ;
        if next >= MIN_SPAWN_INTERVAL_MS as u128 {
            self.spawn_interval = next as u64;
        } else if self.spawn_interval >= MIN_SPAWN_INTERVAL_MS {
            self.spawn_interval = MIN_SPAWN_INTERVAL_MS;
        }
    }

    /// Whether the spawner will be due once `delta` more milliseconds have
    /// passed.
    pub fn due_after(&self, delta: u64) -> (r: bool)
        ensures
            r == (self.spawn_timer + delta >= self.spawn_interval),
    {
        self.spawn_timer as u128 + delta as u128 >= self.spawn_interval as u128
    }

    pub fn finished(&self) -> (r: bool)
        ensures
            r == self.due(),
    {
        self.spawn_timer >= self.spawn_interval
    }
}

impl Default for EnemySpawnConfig {
    /// Five seconds between spawns at first, each spawn a tenth sooner.
    fn default() -> (r: EnemySpawnConfig)
        ensures
            r.spawn_interval == 5000,
            r.spawn_difficulty == 100,
            r.spawn_timer == 0,
    {
        EnemySpawnConfig::new(5000, 100)
    }
}

} // verus!
