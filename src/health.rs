//! Hit points and the health bar that shows them.

use vstd::prelude::*;

use crate::entity::EntityId;
use crate::geometry::{div_trunc, COORD_LIMIT};

verus! {

/// Current and maximum hit points.
#[derive(Clone, Copy, Debug, PartialEq, Eq, Structural)]
pub struct Health {
    pub health: i32,
    pub max: i32,
}

impl Health {
    /// The maximum is positive and never exceeded.
    pub open spec fn wf(self) -> bool {
        0 < self.max && self.health <= self.max
    }

    pub open spec fn dead(self) -> bool {
        self.health <= 0
    }

    /// Full health. A non-positive maximum is refused by the precondition.
    pub fn new(max: i32) -> (r: Health)
        requires
            max > 0,
        ensures
            r.health == max,
            r.max == max,
            r.wf(),
    {
        Health { health: max, max }
    }

    /// Subtracts `damage`; a negative amount heals, up to the maximum.
    pub fn damage(&mut self, damage: i32)
        requires
            i32::MIN <= old(self).health - damage,
            old(self).health - damage <= old(self).max,
        ensures
            final(self).health == old(self).health - damage,
            final(self).max == old(self).max,
    {
        self.health = self.health - damage;
    }

    pub fn health(&self) -> (r: i32)
        ensures
            r == self.health,
    {
        self.health
    }

    pub fn max(&self) -> (r: i32)
        ensures
            r == self.max,
    {
        self.max
    }

    /// Current health as a percentage of the maximum, rounded toward zero and
    /// not clamped: negative once the entity is dead.
    pub fn health_percentage(&self) -> (r: i64)
        requires
            self.wf(),
        ensures
            r == div_trunc(100 * self.health, self.max as int),
    {
        let h: i64 = self.health as i64;
        let m: i64 = self.max as i64;
        if h >= 0 {
            100 * h / m
        } else {
            -((100 * -h) / m)
        }
    }

    pub fn is_dead(&self) -> (r: bool)
        ensures
            r == self.dead(),
    {
        self.health <= 0
    }
}

/// The width of a bar of full width `width` that shows `h`: proportional to
/// the remaining health, rounded down, and zero once health is gone.
pub open spec fn bar_width(width: int, h: Health) -> int {
    if h.health <= 0 {
        0
    } else {
        width * h.health / (h.max as int)
    }
}

/// A presentation entity that tracks the health of its owner.
#[derive(Clone, Copy, Debug, PartialEq, Eq, Structural)]
pub struct HealthBar {
    pub health_entity: EntityId,
    pub width: i64,
}

impl HealthBar {
    pub open spec fn wf(self) -> bool {
        0 <= self.width <= COORD_LIMIT
    }

    pub fn new(health_entity: EntityId, width: i64) -> (r: HealthBar)
        ensures
            r.health_entity == health_entity,
            r.width == width,
    {
        HealthBar { health_entity, width }
    }

    pub fn health_entity(&self) -> (r: EntityId)
        ensures
            r == self.health_entity,
    {
        self.health_entity
    }

    pub fn max_width(&self) -> (r: i64)
        ensures
            r == self.width,
    {
        self.width
    }

    /// The width this bar should have for its owner's `health`.
    pub fn width_for(&self, health: &Health) -> (r: i64)
        requires
            self.wf(),
            health.wf(),
        ensures
            r == bar_width(self.width as int, *health),
            0 <= r <= self.width,
    {
        if health.health <= 0 {
            return 0;
        }
        let w: i128 = self.width as i128;
        let h: i128 = health.health as i128;
        let m: i128 = health.max as i128;
        assert(w * h <= w * m) by (nonlinear_arith)
            requires
                0 <= w,
                h <= m,
        ;
        assert(w * m <= 4_503_599_627_370_496int * 2_147_483_647int) by (nonlinear_arith)
            requires
                0 <= w <= 4_503_599_627_370_496int,
                0 < m <= 2_147_483_647int,
        ;
        assert(w * h >= 0) by (nonlinear_arith)
            requires
                0 <= w,
                0 < h,
        ;
        let q: i128 = w * h / m;
        assert(q <= w) by (nonlinear_arith)
            requires
                q as int == (w as int * h as int) / (m as int),
                w * h <= w * m,
                m > 0,
        ;
        q as i64
    }
}

} // verus!
