//! Positions, velocities, circle colliders and the collision test.

use vstd::prelude::*;

use crate::geometry::{len_sq, within, Vector, COORD_LIMIT, SPEED_LIMIT};

verus! {

/// Below this squared speed (in velocity units squared, i.e. 0.1 world
/// units squared per second squared) an entity counts as standing still.
pub const IDLE_SPEED_SQUARED: i64 = 100_000;

/// Where an entity stands on the plane.
#[derive(Clone, Copy, Debug, PartialEq, Eq, Structural)]
pub struct Transform {
    pub translation: Vector,
}

impl Transform {
    pub fn from_translation(translation: Vector) -> (r: Transform)
        ensures
            r.translation == translation,
    {
        Transform { translation }
    }
}

/// Which way an entity is moving, coarsely, for choosing an animation.
#[derive(Clone, Copy, Debug, PartialEq, Eq, Structural)]
pub enum AnimatedDirection {
    Idle,
    LeftDown,
    LeftUp,
    RightDown,
    RightUp,
}

impl Default for AnimatedDirection {
    fn default() -> (r: AnimatedDirection)
        ensures
            r == AnimatedDirection::Idle,
    {
        AnimatedDirection::Idle
    }
}

/// The current rate of movement, in micro-units per millisecond.
#[derive(Clone, Copy, Debug, PartialEq, Eq, Structural)]
pub struct Velocity(pub Vector);

/// The direction class of a velocity: idle below the idle threshold, else
/// the quadrant, with a zero component counted as left or down.
pub open spec fn direction_of(v: Vector) -> AnimatedDirection {
    if len_sq(v) < IDLE_SPEED_SQUARED {
        AnimatedDirection::Idle
    } else if v.x <= 0 {
        if v.y <= 0 {
            AnimatedDirection::LeftDown
        } else {
            AnimatedDirection::LeftUp
        }
    } else if v.y <= 0 {
        AnimatedDirection::RightDown
    } else {
        AnimatedDirection::RightUp
    }
}

impl Velocity {
    pub open spec fn wf(self) -> bool {
        within(self.0, SPEED_LIMIT as int)
    }

    pub fn from_vec(vec: Vector) -> (r: Velocity)
        ensures
            r.0 == vec,
    {
        Velocity(vec)
    }

    pub fn zero() -> (r: Velocity)
        ensures
            r.0 == (Vector { x: 0, y: 0 }),
    {
        Velocity(Vector { x: 0, y: 0 })
    }

    pub fn as_vec(&self) -> (r: Vector)
        ensures
            r == self.0,
    {
        self.0
    }

    pub fn as_animation(&self) -> (r: AnimatedDirection)
        requires
            self.wf(),
        ensures
            r == direction_of(self.0),
    {
        let x: i128 = self.0.x as i128;
        let y: i128 = self.0.y as i128;
        assert(x * x <= 281_474_976_710_656int && y * y <= 281_474_976_710_656int)
            by (nonlinear_arith)
            requires
                -16_777_216 <= x <= 16_777_216,
                -16_777_216 <= y <= 16_777_216,
        ;
        assert(x * x >= 0 && y * y >= 0) by (nonlinear_arith);
        if x * x + y * y < IDLE_SPEED_SQUARED as i128 {
            return AnimatedDirection::Idle;
        }
        if self.0.x <= 0 {
            if self.0.y <= 0 {
                AnimatedDirection::LeftDown
            } else {
                AnimatedDirection::LeftUp
            }
        } else {
            if self.0.y <= 0 {
                AnimatedDirection::RightDown
            } else {
                AnimatedDirection::RightUp
            }
        }
    }
}

/// The shape an entity collides with. Only circles exist; a new shape must
/// extend every match below, which the compiler enforces.
#[derive(Clone, Copy, Debug, PartialEq, Eq, Structural)]
pub enum Collider {
    Circle { radius: i64 },
}

/// Two shapes at two positions overlap: for circles, the squared distance
/// between the centres is strictly below the squared sum of the radii.
pub open spec fn colliding(a: Collider, pa: Vector, b: Collider, pb: Vector) -> bool {
    match (a, b) {
        (Collider::Circle { radius: r1 }, Collider::Circle { radius: r2 }) => {
            (pa.x - pb.x) * (pa.x - pb.x) + (pa.y - pb.y) * (pa.y - pb.y) < (r1 + r2) * (r1 + r2)
        },
    }
}

impl Collider {
    pub open spec fn wf(self) -> bool {
        match self {
            Collider::Circle { radius } => 0 < radius <= COORD_LIMIT,
        }
    }

    pub fn circle(radius: i64) -> (r: Collider)
        ensures
            r == (Collider::Circle { radius }),
    {
        Collider::Circle { radius }
    }

    pub fn is_colliding(
        &self,
        transform: &Transform,
        other: &Self,
        other_transform: &Transform,
    ) -> (r: bool)
        requires
            self.wf(),
            other.wf(),
            within(transform.translation, COORD_LIMIT as int),
            within(other_transform.translation, COORD_LIMIT as int),
        ensures
            r == colliding(*self, transform.translation, *other, other_transform.translation),
    {
        match (self, other) {
            (Collider::Circle { radius: r1 }, Collider::Circle { radius: r2 }) => {
                let dx: i128 = transform.translation.x as i128 - other_transform.translation.x as i128;
                let dy: i128 = transform.translation.y as i128 - other_transform.translation.y as i128;
                let s: i128 = *r1 as i128 + *r2 as i128;
                assert(dx * dx <= 81_129_638_414_606_681_695_789_005_144_064int
                    && dy * dy <= 81_129_638_414_606_681_695_789_005_144_064int
                    && s * s <= 81_129_638_414_606_681_695_789_005_144_064int) by (nonlinear_arith)
                    requires
                        -9_007_199_254_740_992 <= dx <= 9_007_199_254_740_992,
                        -9_007_199_254_740_992 <= dy <= 9_007_199_254_740_992,
                        0 <= s <= 9_007_199_254_740_992,
                ;
                assert(dx * dx >= 0 && dy * dy >= 0) by (nonlinear_arith);
                dx * dx + dy * dy < s * s
            },
        }
    }
}

/// A collider placed somewhere.
#[derive(Clone, Copy, Debug, PartialEq, Eq, Structural)]
pub struct ColliderBundle {
    pub transform: Transform,
    pub collider: Collider,
}

impl ColliderBundle {
    pub fn circle(radius: i64, transform: Transform) -> (r: ColliderBundle)
        ensures
            r.transform == transform,
            r.collider == (Collider::Circle { radius }),
    {
        ColliderBundle { transform, collider: Collider::circle(radius) }
    }
}

/// Whether two shapes overlap does not depend on which one is asked.
pub proof fn lemma_colliding_symmetric(a: Collider, pa: Vector, b: Collider, pb: Vector)
    ensures
        colliding(a, pa, b, pb) == colliding(b, pb, a, pa),
{
    match (a, b) {
        (Collider::Circle { radius: r1 }, Collider::Circle { radius: r2 }) => {
            assert((pa.x - pb.x) * (pa.x - pb.x) == (pb.x - pa.x) * (pb.x - pa.x)) by (nonlinear_arith);
            assert((pa.y - pb.y) * (pa.y - pb.y) == (pb.y - pa.y) * (pb.y - pa.y)) by (nonlinear_arith);
        },
    }
}

} // verus!
