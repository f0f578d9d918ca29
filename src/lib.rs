//! Simulation core of a small top-down arcade game: motion integration,
//! circle collision, health and damage, weapon and melee cooldowns, enemy
//! steering, a difficulty-ramping spawner, and the fixed per-tick stage order.
//!
//! Units: a position is measured in micro-units (one world unit is
//! `UNIT` = 1_000_000 of them), time in milliseconds, and a velocity in
//! micro-units per millisecond (numerically, thousandths of a world unit
//! per second). With these units one integration step is exact:
//! `position + velocity * dt`.

use vstd::prelude::*;

pub mod animated;
pub mod enemy;
pub mod entity;
pub mod geometry;
pub mod health;
pub mod laws;
pub mod physics;
pub mod player;
pub mod stages;
pub mod weapon;
pub mod world;

verus! {

} // verus!
