//! Choosing an animation from the direction an entity moves in.

use vstd::prelude::*;

use crate::physics::AnimatedDirection;

verus! {

/// The animation tags of a sprite: one per moving direction, and an
/// optional one for standing still.
#[derive(Debug)]
pub struct Animated {
    pub idle: Option<String>,
    pub down_left: String,
    pub down_right: String,
    pub up_left: String,
    pub up_right: String,
}

/// The tag to play for `direction`; standing still falls back to the
/// down-left tag when there is no idle one.
pub open spec fn tag_for(a: Animated, direction: AnimatedDirection) -> Seq<char> {
    match direction {
        AnimatedDirection::Idle => match a.idle {
            Some(idle) => idle@,
            None => a.down_left@,
        },
        AnimatedDirection::LeftDown => a.down_left@,
        AnimatedDirection::LeftUp => a.up_left@,
        AnimatedDirection::RightDown => a.down_right@,
        AnimatedDirection::RightUp => a.up_right@,
    }
}

impl Animated {
    pub fn new(
        idle: Option<String>,
        down_left: String,
        down_right: String,
        up_left: String,
        up_right: String,
    ) -> (r: Animated)
        ensures
            r.idle == idle,
            r.down_left == down_left,
            r.down_right == down_right,
            r.up_left == up_left,
            r.up_right == up_right,
    {
        Animated { idle, down_left, down_right, up_left, up_right }
    }

    /// The animation tag for `direction`.
    pub fn animation_tag(&self, direction: AnimatedDirection) -> (r: String)
        ensures
            r@ == tag_for(*self, direction),
    {
        match direction {
            AnimatedDirection::Idle => match &self.idle {
                Some(idle) => idle.clone(),
                None => self.down_left.clone(),
            },
            AnimatedDirection::LeftDown => self.down_left.clone(),
            AnimatedDirection::LeftUp => self.up_left.clone(),
            AnimatedDirection::RightDown => self.down_right.clone(),
            AnimatedDirection::RightUp => self.up_right.clone(),
        }
    }
}

} // verus!
