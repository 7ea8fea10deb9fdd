//! The bat enemy: a knockback vector, set when the player's sword strikes
//! its hurtbox, that decays toward rest every frame while the engine's
//! physics integrates it every tick.

use crate::vec2::{
    lemma_move_towards_origin_shrinks, lemma_move_towards_origin_strictly_shrinks,
    spec_move_towards, Vec2, MAX_DELTA, SCALE,
};
use vstd::prelude::*;

verus! {

/// How fast knockback drains, in world units per second per second.
pub const KNOCKBACK_FRICTION: i64 = 200;

/// Speed a sword hit gives the bat, in world units per second.
pub const KNOCKBACK_SPEED: i64 = 120;

/// The bat's per-frame state.
#[derive(Clone, Copy, PartialEq, Eq, Structural, Debug)]
pub struct Bat {
    pub knockback: Vec2,
}

impl Bat {
    /// Knockback within coordinate bounds.
    pub open spec fn wf(self) -> bool {
        self.knockback.wf()
    }

    /// A fresh bat at rest.
    pub fn new() -> (r: Bat)
        ensures
            r.wf(),
            r.knockback.x == 0 && r.knockback.y == 0,
    {
        Bat::default()
    }

    /// One frame of decay: the knockback eases toward rest at the knockback
    /// friction rate, never growing in squared length.
    pub fn _process(&mut self, delta: i64)
        requires
            old(self).wf(),
            0 <= delta <= MAX_DELTA,
        ensures
            final(self).wf(),
            (final(self).knockback.x as int, final(self).knockback.y as int) == spec_move_towards(
                old(self).knockback.x as int,
                old(self).knockback.y as int,
                0,
                0,
                KNOCKBACK_FRICTION * delta,
            ),
            final(self).knockback.norm2() <= old(self).knockback.norm2(),
    {
        let step: i64 = KNOCKBACK_FRICTION * delta;
        proof {
            lemma_move_towards_origin_shrinks(
                self.knockback.x as int,
                self.knockback.y as int,
                step as int,
            );
        }
        self.knockback = self.knockback.move_towards(Vec2::zero(), step);
    }

    /// One physics tick: the collision-adjusted vector the engine's
    /// move-and-slide returned for the current knockback becomes the new
    /// knockback.
    pub fn _physics_process(&mut self, slide_result: Vec2)
        requires
            slide_result.wf(),
        ensures
            final(self).wf(),
            final(self).knockback == slide_result,
    {
        self.knockback = slide_result;
    }

    /// Hurtbox collision: take a fresh impulse along the striking sword's
    /// knockback direction, at knockback speed.
    #[allow(non_snake_case)]
    pub fn _on_Hurtbox_area_entered(&mut self, knockback_vector: Vec2)
        requires
            -SCALE <= knockback_vector.x <= SCALE,
            -SCALE <= knockback_vector.y <= SCALE,
        ensures
            final(self).wf(),
            final(self).knockback.x == knockback_vector.x * KNOCKBACK_SPEED,
            final(self).knockback.y == knockback_vector.y * KNOCKBACK_SPEED,
    {
        self.knockback = knockback_vector.scaled(KNOCKBACK_SPEED);
    }
}

impl Default for Bat {
    /// At rest, with no knockback.
    fn default() -> (r: Bat)
        ensures
            r.wf(),
            r.knockback.x == 0 && r.knockback.y == 0,
    {
        Bat { knockback: Vec2 { x: 0, y: 0 } }
    }
}

/// Absent new collisions the knockback decays monotonically toward rest: a
/// frame's decay step never grows the squared length, strictly shrinks it
/// whenever any time passed and the knockback was nonzero, and zeroes the
/// knockback outright once its squared length is within the step's square.
pub proof fn lemma_knockback_decay(kx: int, ky: int, delta: int)
    requires
        0 <= delta,
    ensures
        ({
            let (rx, ry) = spec_move_towards(kx, ky, 0, 0, KNOCKBACK_FRICTION * delta);
            &&& rx * rx + ry * ry <= kx * kx + ky * ky
            &&& (1 <= delta && !(kx == 0 && ky == 0) ==> rx * rx + ry * ry < kx * kx + ky * ky)
            &&& (kx * kx + ky * ky <= (KNOCKBACK_FRICTION * delta) * (KNOCKBACK_FRICTION * delta)
                ==> rx == 0 && ry == 0)
        }),
{
    lemma_move_towards_origin_shrinks(kx, ky, KNOCKBACK_FRICTION * delta);
    if 1 <= delta && !(kx == 0 && ky == 0) {
        lemma_move_towards_origin_strictly_shrinks(kx, ky, KNOCKBACK_FRICTION * delta);
    }
}

} // verus!
