//! The player character and how input becomes movement.

use vstd::prelude::*;

use crate::geometry::{scale_to, scaled, within, Vector, COORD_LIMIT, SPEED_LIMIT, UNIT};
use crate::physics::Velocity;
use crate::weapon::PlayerWeapon;

verus! {

/// Player speed: 200 world units per second.
pub const PLAYER_SPEED: i64 = 200_000;

/// Radius of the player's collider: 32 world units.
pub const PLAYER_RADIUS: i64 = 32 * UNIT;

/// Hit points the player starts with.
pub const PLAYER_HEALTH: i32 = 100;

#[derive(Clone, Copy, Debug, PartialEq, Eq, Structural)]
pub struct Player {
    pub speed: i64,
    pub weapon_one: PlayerWeapon,
    pub weapon_two: Option<PlayerWeapon>,
}

impl Player {
    pub open spec fn wf(self) -> bool {
        0 <= self.speed <= SPEED_LIMIT
    }

    pub fn new() -> (r: Player)
        ensures
            r.speed == PLAYER_SPEED,
            r.weapon_one == (PlayerWeapon::Axe { last_attack: None }),
            r.weapon_two.is_none(),
            r.wf(),
    {
        Player { speed: PLAYER_SPEED, weapon_one: PlayerWeapon::axe(), weapon_two: None }
    }

    pub fn speed(&self) -> (r: i64)
        ensures
            r == self.speed,
    {
        self.speed
    }

    pub fn weapon_one(&self) -> (r: &PlayerWeapon)
        ensures
            *r == self.weapon_one,
    {
        &self.weapon_one
    }

    pub fn weapon_one_mut(&mut self) -> (r: &mut PlayerWeapon)
        ensures
            *r == old(self).weapon_one,
            *final(self) == (Player { weapon_one: *final(r), ..*old(self) }),
    {
        &mut self.weapon_one
    }

    pub fn weapon_two(&self) -> (r: Option<&PlayerWeapon>)
        ensures
            r == match self.weapon_two {
                Some(w) => Some(&w),
                None => None::<&PlayerWeapon>,
            },
    {
        match &self.weapon_two {
            Some(w) => Some(w),
            None => None,
        }
    }
}

/// The direction that the four movement keys ask for: one world unit along
/// each axis that has exactly one of its two keys held.
pub open spec fn key_direction(left: bool, right: bool, down: bool, up: bool) -> Vector {
    Vector {
        x: (UNIT * ((if right { 1int } else { 0int }) - (if left { 1int } else { 0int }))) as i64,
        y: (UNIT * ((if up { 1int } else { 0int }) - (if down { 1int } else { 0int }))) as i64,
    }
}

/// The velocity the movement keys ask for: their direction, normalised,
/// times the player's speed (zero when no direction results).
pub fn input_velocity(left: bool, right: bool, down: bool, up: bool, speed: i64) -> (r: Velocity)
    requires
        0 <= speed <= SPEED_LIMIT,
    ensures
        r.0 == scaled(key_direction(left, right, down, up), speed as int),
        within(r.0, speed as int),
{
    let mut x: i64 = 0;
    let mut y: i64 = 0;
    if left {
        x = x - UNIT;
    }
    if right {
        x = x + UNIT;
    }
    if down {
        y = y - UNIT;
    }
    if up {
        y = y + UNIT;
    }
    let direction = Vector { x, y };
    assert(direction == key_direction(left, right, down, up));
    Velocity::from_vec(scale_to(direction, speed))
}

/// Where the cursor points, seen from the centre of a window of the given
/// size, with y growing upward. Only the direction matters: the offset is
/// measured in half pixels, so that the centre of an odd-sized window stays
/// exact, and scaled by `UNIT` so that normalising it stays precise.
pub open spec fn cursor_direction(cursor: Vector, width: int, height: int) -> Vector {
    Vector { x: (UNIT * (2 * cursor.x - width)) as i64, y: (UNIT * (height - 2 * cursor.y)) as i64 }
}

/// Largest window side or cursor coordinate, in pixels.
pub const SCREEN_LIMIT: i64 = 1_000_000_000;

pub fn calculate_player_direction_from_mouse(cursor: Vector, width: i64, height: i64) -> (r: Vector)
    requires
        within(cursor, SCREEN_LIMIT as int),
        0 <= width <= SCREEN_LIMIT,
        0 <= height <= SCREEN_LIMIT,
    ensures
        r == cursor_direction(cursor, width as int, height as int),
        within(r, 2 * COORD_LIMIT),
{
    Vector { x: UNIT * (2 * cursor.x - width), y: UNIT * (height - 2 * cursor.y) }
}

} // verus!
