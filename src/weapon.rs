//! Player weapons, their cooldown, and the projectiles they throw.

use vstd::prelude::*;

use crate::entity::EnitityAllegence;
use crate::geometry::{scale_to, scaled, within, Vector, COORD_LIMIT, UNIT};
use crate::physics::{Collider, Transform, Velocity};

verus! {

/// Speed of a thrown axe: 512 world units per second.
pub const AXE_VELOCITY: i64 = 512_000;

/// How far ahead of the thrower an axe appears: half a world unit.
pub const AXE_FORWARD_OFFSET: i64 = 500_000;

/// Radius of a thrown axe: 16 world units.
pub const AXE_RADIUS: i64 = 16 * UNIT;

/// Damage dealt by a thrown axe.
pub const AXE_DAMAGE: i32 = 25;

/// Cooldown of the axe, in milliseconds.
pub const AXE_COOLDOWN_MS: u64 = 500;

/// A thrown object that hurts the first opposing entity it touches.
#[derive(Clone, Copy, Debug, PartialEq, Eq, Structural)]
pub struct Projectile {
    pub damage: i32,
}

impl Projectile {
    pub fn new(damage: i32) -> (r: Projectile)
        ensures
            r.damage == damage,
    {
        Projectile { damage }
    }

    pub fn damage(&self) -> (r: i32)
        ensures
            r == self.damage,
    {
        self.damage
    }
}

/// Everything a new projectile entity is made of.
#[derive(Clone, Copy, Debug, PartialEq, Eq, Structural)]
pub struct ProjectileBundle {
    pub transform: Transform,
    pub velocity: Velocity,
    pub collider: Collider,
    pub projectile: Projectile,
    pub allegence: EnitityAllegence,
}

/// A weapon the player wields; `last_attack` is when it last fired, in
/// milliseconds.
#[derive(Clone, Copy, Debug, PartialEq, Eq, Structural)]
pub enum PlayerWeapon {
    Axe { last_attack: Option<u64> },
}

pub open spec fn cooldown_of(w: PlayerWeapon) -> int {
    match w {
        PlayerWeapon::Axe { .. } => AXE_COOLDOWN_MS as int,
    }
}

/// `max(0, cooldown - (now - last_attack))`, with no wait before the first
/// attack and the elapsed time never counted as negative.
pub open spec fn cooldown_left(w: PlayerWeapon, now: int) -> int {
    match w {
        PlayerWeapon::Axe { last_attack } => match last_attack {
            None => 0,
            Some(t) => {
                let elapsed = if now >= t { now - t } else { 0 };
                if cooldown_of(w) > elapsed {
                    cooldown_of(w) - elapsed
                } else {
                    0
                }
            },
        },
    }
}

/// The projectile an axe thrown from `origin` toward `facing` becomes.
pub open spec fn axe_projectile(origin: Vector, facing: Vector) -> ProjectileBundle {
    let ahead = scaled(facing, AXE_FORWARD_OFFSET as int);
    ProjectileBundle {
        transform: Transform {
            translation: Vector { x: (origin.x + ahead.x) as i64, y: (origin.y + ahead.y) as i64 },
        },
        velocity: Velocity(scaled(facing, AXE_VELOCITY as int)),
        collider: Collider::Circle { radius: AXE_RADIUS },
        projectile: Projectile { damage: AXE_DAMAGE },
        allegence: EnitityAllegence::Player,
    }
}

/// Origins from which a throw stays inside the world.
pub open spec fn throw_fits(origin: Vector) -> bool {
    within(origin, COORD_LIMIT - AXE_FORWARD_OFFSET)
}

fn spawn_axe(origin: Vector, facing: Vector) -> (r: ProjectileBundle)
    requires
        throw_fits(origin),
        within(facing, 2 * COORD_LIMIT),
    ensures
        r == axe_projectile(origin, facing),
        within(r.transform.translation, COORD_LIMIT as int),
        within(r.velocity.0, AXE_VELOCITY as int),
        -AXE_FORWARD_OFFSET <= r.transform.translation.x - origin.x <= AXE_FORWARD_OFFSET,
        -AXE_FORWARD_OFFSET <= r.transform.translation.y - origin.y <= AXE_FORWARD_OFFSET,
{
    let ahead = scale_to(facing, AXE_FORWARD_OFFSET);
    let velocity = scale_to(facing, AXE_VELOCITY);
    ProjectileBundle {
        transform: Transform::from_translation(
            Vector { x: origin.x + ahead.x, y: origin.y + ahead.y },
        ),
        velocity: Velocity::from_vec(velocity),
        collider: Collider::circle(AXE_RADIUS),
        projectile: Projectile::new(AXE_DAMAGE),
        allegence: EnitityAllegence::Player,
    }
}

impl PlayerWeapon {
    pub fn axe() -> (r: PlayerWeapon)
        ensures
            r == (PlayerWeapon::Axe { last_attack: None }),
    {
        PlayerWeapon::Axe { last_attack: None }
    }

    pub open spec fn last_attack_time(self) -> Option<u64> {
        match self {
            PlayerWeapon::Axe { last_attack } => last_attack,
        }
    }

    /// Ready: no wait is left at time `now`.
    pub open spec fn ready(self, now: int) -> bool {
        cooldown_left(self, now) == 0
    }

    /// Throws a projectile from `origin` toward `facing` if the weapon is
    /// ready at `now`, and records `now` as the time of the attack; when
    /// not ready, nothing happens.
    pub fn attack(&mut self, now: u64, origin: Vector, facing: Vector) -> (r: Option<ProjectileBundle>)
        requires
            throw_fits(origin),
            within(facing, 2 * COORD_LIMIT),
        ensures
            old(self).ready(now as int) ==> r == Some(axe_projectile(origin, facing))
                && final(self).last_attack_time() == Some(now),
            !old(self).ready(now as int) ==> r.is_none() && *final(self) == *old(self),
            r matches Some(b) ==> within(b.transform.translation, COORD_LIMIT as int)
                && within(b.velocity.0, AXE_VELOCITY as int)
                && -AXE_FORWARD_OFFSET <= b.transform.translation.x - origin.x <= AXE_FORWARD_OFFSET
                && -AXE_FORWARD_OFFSET <= b.transform.translation.y - origin.y <= AXE_FORWARD_OFFSET,
    {
        if !self.can_attack(now) {
            return None;
        }
        let projectile = match self {
            PlayerWeapon::Axe { .. } => spawn_axe(origin, facing),
        };
        match self {
            PlayerWeapon::Axe { last_attack } => *last_attack = Some(now),
        }
        Some(projectile)
    }

    pub fn cooldown(&self) -> (r: u64)
        ensures
            r == cooldown_of(*self),
    {
        match self {
            PlayerWeapon::Axe { .. } => AXE_COOLDOWN_MS,
        }
    }

    /// How long, from `now`, until the weapon can attack again.
    pub fn cooldown_remaining(&self, now: u64) -> (r: u64)
        ensures
            r == cooldown_left(*self, now as int),
    {
        let last_attack = match self {
            PlayerWeapon::Axe { last_attack } => *last_attack,
        };
        match last_attack {
            Some(t) => {
                let elapsed: u64 = if now >= t { now - t } else { 0 };
                self.cooldown().saturating_sub(elapsed)
            },
            None => 0,
        }
    }

    pub fn can_attack(&self, now: u64) -> (r: bool)
        ensures
            r == self.ready(now as int),
    {
        self.cooldown_remaining(now) == 0
    }

    pub fn damage(&self) -> (r: i32)
        ensures
            r == AXE_DAMAGE,
    {
        match self {
            PlayerWeapon::Axe { .. } => AXE_DAMAGE,
        }
    }
}

} // verus!
