//! The hitbox carried by the player's sword. While the player moves, the
//! sword's knockback direction is kept pointing the way the player faces, so
//! that a struck enemy is pushed away from the blow.

use crate::vec2::{Vec2, SCALE};
use vstd::prelude::*;

verus! {

/// The sword's hitbox: `knockback_vector` is the direction (at most one
/// world unit per coordinate) a struck enemy is pushed in.
#[derive(Clone, Copy, PartialEq, Eq, Structural, Debug)]
pub struct SwordHitbox {
    pub knockback_vector: Vec2,
}

impl SwordHitbox {
    /// The knockback direction stays within one world unit per coordinate.
    pub open spec fn wf(self) -> bool {
        &&& -SCALE <= self.knockback_vector.x <= SCALE
        &&& -SCALE <= self.knockback_vector.y <= SCALE
    }
}

impl Default for SwordHitbox {
    /// A sword that has not been aimed yet: no knockback direction.
    fn default() -> (r: SwordHitbox)
        ensures
            r.wf(),
            r.knockback_vector.x == 0,
            r.knockback_vector.y == 0,
    {
        SwordHitbox { knockback_vector: Vec2 { x: 0, y: 0 } }
    }
}

} // verus!
