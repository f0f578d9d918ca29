//! Entity identity, side membership, and the damage message.

use vstd::prelude::*;

verus! {

/// An opaque entity identifier.
#[derive(Clone, Copy, Debug, PartialEq, Eq, Structural)]
pub struct EntityId(pub u64);

/// The side an entity fights on; nothing damages its own side.
#[derive(Clone, Copy, Debug, PartialEq, Eq, Structural)]
pub enum EnitityAllegence {
    Player,
    Enemy,
}

/// "This entity was hit for this much": produced during a tick by melee and
/// projectile checks, consumed once by the damage resolver of that tick.
#[derive(Clone, Copy, Debug, PartialEq, Eq, Structural)]
pub struct EntityTookDamage {
    pub entity: EntityId,
    pub damage: i32,
}

impl EntityTookDamage {
    pub fn new(entity: EntityId, damage: i32) -> (r: EntityTookDamage)
        ensures
            r.entity == entity,
            r.damage == damage,
    {
        EntityTookDamage { entity, damage }
    }

    pub fn entity(&self) -> (r: EntityId)
        ensures
            r == self.entity,
    {
        self.entity
    }

    pub fn damage(&self) -> (r: i32)
        ensures
            r == self.damage,
    {
        self.damage
    }
}

} // verus!
