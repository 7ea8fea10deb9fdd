//! The player character: a three-state machine (Move, Attack, Roll) that
//! turns polled input strengths into velocity updates, state transitions and
//! animation choices, one frame at a time. The host engine polls the input,
//! plays the chosen animation and integrates the velocity; every decision in
//! between is made and proved here.

use crate::sword_hitbox::SwordHitbox;
use crate::vec2::{
    div_towards_zero, is_sqrt_floor, lemma_move_towards_closes_in, lemma_move_towards_on_axis_x,
    lemma_move_towards_on_axis_y, lemma_sqrt_floor_is, spec_move_towards, spec_normalized, Vec2,
    MAX_DELTA, SCALE,
};
use vstd::math::abs;
use vstd::prelude::*;

verus! {

/// How fast the velocity approaches the input direction, in world units per
/// second per second.
pub const ACCELERATION: i64 = 500;

/// Top movement speed, in world units per second.
pub const MAX_SPEED: i64 = 80;

/// Speed of a roll, in world units per second.
pub const ROLL_SPEED: i64 = 120;

/// How fast the velocity drains when there is no input, in world units per
/// second per second.
pub const FRICTION: i64 = 500;

/// What the player is doing this frame.
#[derive(Clone, Copy, PartialEq, Eq, Structural, Debug)]
pub enum State {
    Move,
    Attack,
    Roll,
}

impl Default for State {
    /// A player starts out moving.
    fn default() -> (r: State)
        ensures
            r == State::Move,
    {
        State::Move
    }
}

/// The animation-tree state the host should travel to.
#[derive(Clone, Copy, PartialEq, Eq, Structural, Debug)]
pub enum Animation {
    Idle,
    Run,
    Attack,
    Roll,
}

/// What the host's animation tree should do this frame: travel to `travel`,
/// and, when `blend_position` is set, point the Idle, Run, Attack and Roll
/// blend spaces at that direction first.
#[derive(Clone, Copy, PartialEq, Eq, Debug)]
pub struct AnimationCommand {
    pub travel: Animation,
    pub blend_position: Option<Vec2>,
}

/// The player's per-frame state.
#[derive(Clone, Copy, PartialEq, Eq, Structural, Debug)]
pub struct Player {
    pub velocity: Vec2,
    pub state: State,
    pub roll_vector: Vec2,
}

/// The movement direction for one frame: right minus left and down minus up
/// strengths, normalized to one world unit when nonzero.
pub open spec fn spec_input_vector(right: int, left: int, down: int, up: int) -> (int, int) {
    spec_normalized(right - left, down - up)
}

/// One Move-state frame of velocity easing: with input, step toward the
/// input direction times top speed at the acceleration rate; without, brake
/// toward a stop at the friction rate.
pub open spec fn spec_moved_velocity(vx: int, vy: int, ix: int, iy: int, delta: int) -> (
    int,
    int,
) {
    if ix == 0 && iy == 0 {
        spec_move_towards(vx, vy, 0, 0, FRICTION * delta)
    } else {
        spec_move_towards(vx, vy, ix * MAX_SPEED, iy * MAX_SPEED, ACCELERATION * delta)
    }
}

impl Player {
    /// Velocity within coordinate bounds, roll direction within one world
    /// unit per coordinate.
    pub open spec fn wf(self) -> bool {
        &&& self.velocity.wf()
        &&& -SCALE <= self.roll_vector.x <= SCALE
        &&& -SCALE <= self.roll_vector.y <= SCALE
    }

    /// A fresh player: at rest, moving, facing down.
    pub fn new() -> (r: Player)
        ensures
            r.wf(),
            r.velocity.x == 0 && r.velocity.y == 0,
            r.state == State::Move,
            r.roll_vector.x == 0 && r.roll_vector.y == SCALE,
    {
        Player { velocity: Vec2::zero(), state: State::Move, roll_vector: Vec2::down() }
    }

    /// Combine the four polled action strengths (each between zero and one
    /// world unit) into one movement direction.
    pub fn get_movement_input(&self, right: i64, left: i64, down: i64, up: i64) -> (r: Vec2)
        requires
            0 <= right <= SCALE,
            0 <= left <= SCALE,
            0 <= down <= SCALE,
            0 <= up <= SCALE,
        ensures
            -SCALE <= r.x <= SCALE,
            -SCALE <= r.y <= SCALE,
            (r.x as int, r.y as int) == spec_input_vector(
                right as int,
                left as int,
                down as int,
                up as int,
            ),
    {
        let input_vector = Vec2 { x: right - left, y: down - up };
        input_vector.normalized()
    }

    /// Choose the Move-state animation: run along the input direction when
    /// there is input (pointing the blend spaces at it), idle otherwise.
    pub fn animate_on_input(&self, input_vector: Vec2) -> (cmd: AnimationCommand)
        ensures
            !(input_vector.x == 0 && input_vector.y == 0) ==> cmd == (AnimationCommand {
                travel: Animation::Run,
                blend_position: Some(input_vector),
            }),
            (input_vector.x == 0 && input_vector.y == 0) ==> cmd == (AnimationCommand {
                travel: Animation::Idle,
                blend_position: None::<Vec2>,
            }),
    {
        if input_vector.x != 0 || input_vector.y != 0 {
            AnimationCommand { travel: Animation::Run, blend_position: Some(input_vector) }
        } else {
            AnimationCommand { travel: Animation::Idle, blend_position: None }
        }
    }

    /// One Move-state frame of movement: with input, remember it as the roll
    /// and sword-knockback direction and ease the velocity toward it;
    /// without, brake toward a stop.
    pub fn move_on_input(&mut self, input_vector: Vec2, delta: i64, sword_hitbox: &mut SwordHitbox)
        requires
            old(self).wf(),
            -SCALE <= input_vector.x <= SCALE,
            -SCALE <= input_vector.y <= SCALE,
            0 <= delta <= MAX_DELTA,
        ensures
            final(self).wf(),
            final(self).state == old(self).state,
            (final(self).velocity.x as int, final(self).velocity.y as int) == spec_moved_velocity(
                old(self).velocity.x as int,
                old(self).velocity.y as int,
                input_vector.x as int,
                input_vector.y as int,
                delta as int,
            ),
            !(input_vector.x == 0 && input_vector.y == 0) ==> final(self).roll_vector
                == input_vector && final(sword_hitbox).knockback_vector == input_vector,
            (input_vector.x == 0 && input_vector.y == 0) ==> final(self).roll_vector == old(self).roll_vector
                && *final(sword_hitbox) == *old(sword_hitbox),
            old(sword_hitbox).wf() ==> final(sword_hitbox).wf(),
    {
        if input_vector.x != 0 || input_vector.y != 0 {
            self.roll_vector = input_vector;
            sword_hitbox.knockback_vector = input_vector;
            let target = input_vector.scaled(MAX_SPEED);
            self.velocity = self.velocity.move_towards(target, ACCELERATION * delta);
        } else {
            self.velocity = self.velocity.move_towards(Vec2::zero(), FRICTION * delta);
        }
    }

    /// Pin the velocity to the last movement direction at roll speed.
    pub fn roll(&mut self)
        requires
            old(self).wf(),
        ensures
            final(self).wf(),
            final(self).state == old(self).state,
            final(self).roll_vector == old(self).roll_vector,
            final(self).velocity.x == old(self).roll_vector.x * ROLL_SPEED,
            final(self).velocity.y == old(self).roll_vector.y * ROLL_SPEED,
    {
        self.velocity = self.roll_vector.scaled(ROLL_SPEED);
    }

    /// Enter the attack state on an attack press.
    pub fn handle_attack_input(&mut self, attack_just_pressed: bool)
        ensures
            final(self).state == (if attack_just_pressed {
                State::Attack
            } else {
                old(self).state
            }),
            final(self).velocity == old(self).velocity,
            final(self).roll_vector == old(self).roll_vector,
    {
        if attack_just_pressed {
            self.state = State::Attack;
        }
    }

    /// Enter the roll state on a roll press.
    pub fn handle_roll_input(&mut self, roll_just_pressed: bool)
        ensures
            final(self).state == (if roll_just_pressed {
                State::Roll
            } else {
                old(self).state
            }),
            final(self).velocity == old(self).velocity,
            final(self).roll_vector == old(self).roll_vector,
    {
        if roll_just_pressed {
            self.state = State::Roll;
        }
    }

    /// The attack animation for an attacking frame.
    pub fn animate_attack(&self) -> (cmd: AnimationCommand)
        ensures
            cmd == (AnimationCommand { travel: Animation::Attack, blend_position: None::<Vec2> }),
    {
        AnimationCommand { travel: Animation::Attack, blend_position: None }
    }

    /// The roll animation for a rolling frame.
    pub fn animate_roll(&self) -> (cmd: AnimationCommand)
        ensures
            cmd == (AnimationCommand { travel: Animation::Roll, blend_position: None::<Vec2> }),
    {
        AnimationCommand { travel: Animation::Roll, blend_position: None }
    }

    /// Host callback: the attack animation ended; go back to moving.
    pub fn attack_animation_finished(&mut self)
        ensures
            final(self).state == State::Move,
            final(self).velocity == old(self).velocity,
            final(self).roll_vector == old(self).roll_vector,
    {
        self.state = State::Move;
    }

    /// Host callback: the roll ended; keep four fifths of the roll velocity
    /// and go back to moving.
    pub fn roll_animation_finished(&mut self)
        requires
            old(self).wf(),
        ensures
            final(self).wf(),
            final(self).state == State::Move,
            final(self).velocity.x == div_towards_zero(old(self).velocity.x * 4, 5),
            final(self).velocity.y == div_towards_zero(old(self).velocity.y * 4, 5),
            final(self).roll_vector == old(self).roll_vector,
    {
        self.velocity = self.velocity.scaled_frac(4, 5);
        self.state = State::Move;
    }

    /// One frame of the state machine, from the values the host polled:
    /// while moving, ease the velocity along the input, aim the roll and the
    /// sword, and take attack or roll presses (a roll press wins over an
    /// attack press); while attacking, hold still; while rolling, keep the
    /// velocity pinned to the roll direction. Returns what the animation
    /// tree should do.
    pub fn _process(
        &mut self,
        right: i64,
        left: i64,
        down: i64,
        up: i64,
        attack_just_pressed: bool,
        roll_just_pressed: bool,
        delta: i64,
        sword_hitbox: &mut SwordHitbox,
    ) -> (cmd: AnimationCommand)
        requires
            old(self).wf(),
            0 <= right <= SCALE,
            0 <= left <= SCALE,
            0 <= down <= SCALE,
            0 <= up <= SCALE,
            0 <= delta <= MAX_DELTA,
        ensures
            final(self).wf(),
            old(sword_hitbox).wf() ==> final(sword_hitbox).wf(),
            old(self).state == State::Move ==> ({
                let (ix, iy) = spec_input_vector(right as int, left as int, down as int, up as int);
                &&& (final(self).velocity.x as int, final(self).velocity.y as int)
                    == spec_moved_velocity(
                    old(self).velocity.x as int,
                    old(self).velocity.y as int,
                    ix,
                    iy,
                    delta as int,
                )
                &&& final(self).state == (if roll_just_pressed {
                    State::Roll
                } else if attack_just_pressed {
                    State::Attack
                } else {
                    State::Move
                })
                &&& !(ix == 0 && iy == 0) ==> {
                    &&& final(self).roll_vector.x == ix && final(self).roll_vector.y == iy
                    &&& final(sword_hitbox).knockback_vector.x == ix
                    &&& final(sword_hitbox).knockback_vector.y == iy
                    &&& cmd.travel == Animation::Run
                    &&& cmd.blend_position matches Some(b) && b.x == ix && b.y == iy
                }
                &&& (ix == 0 && iy == 0) ==> {
                    &&& final(self).roll_vector == old(self).roll_vector
                    &&& *final(sword_hitbox) == *old(sword_hitbox)
                    &&& cmd == (AnimationCommand {
                        travel: Animation::Idle,
                        blend_position: None::<Vec2>,
                    })
                }
            }),
            old(self).state == State::Attack ==> *final(self) == *old(self) && *final(sword_hitbox)
                == *old(sword_hitbox) && cmd == (AnimationCommand {
                travel: Animation::Attack,
                blend_position: None::<Vec2>,
            }),
            old(self).state == State::Roll ==> ({
                &&& final(self).state == State::Roll
                &&& final(self).roll_vector == old(self).roll_vector
                &&& final(self).velocity.x == old(self).roll_vector.x * ROLL_SPEED
                &&& final(self).velocity.y == old(self).roll_vector.y * ROLL_SPEED
                &&& *final(sword_hitbox) == *old(sword_hitbox)
                &&& cmd == (AnimationCommand {
                    travel: Animation::Roll,
                    blend_position: None::<Vec2>,
                })
            }),
    {
        match self.state {
            State::Move => {
                let input_vector = self.get_movement_input(right, left, down, up);
                let cmd = self.animate_on_input(input_vector);
                self.move_on_input(input_vector, delta, sword_hitbox);
                self.handle_attack_input(attack_just_pressed);
                self.handle_roll_input(roll_just_pressed);
                cmd
            },
            State::Attack => self.animate_attack(),
            State::Roll => {
                self.roll();
                self.animate_roll()
            },
        }
    }

    /// The velocity the engine should integrate this physics tick: the
    /// current velocity while moving or rolling, nothing during an attack.
    pub fn physics_velocity(&self) -> (r: Option<Vec2>)
        ensures
            self.state == State::Attack ==> r is None,
            self.state != State::Attack ==> r == Some(self.velocity),
    {
        match self.state {
            State::Attack => None,
            _ => Some(self.velocity),
        }
    }

    /// One physics tick: while moving or rolling, the collision-adjusted
    /// vector the engine's move-and-slide returned (for the velocity handed
    /// out by `physics_velocity`) becomes the new velocity; during an attack
    /// the player stands still.
    pub fn _physics_process(&mut self, slide_result: Option<Vec2>)
        requires
            old(self).wf(),
            slide_result matches Some(m) ==> m.wf(),
        ensures
            final(self).wf(),
            final(self).state == old(self).state,
            final(self).roll_vector == old(self).roll_vector,
            old(self).state == State::Attack ==> final(self).velocity.x == 0
                && final(self).velocity.y == 0,
            old(self).state != State::Attack ==> (slide_result matches Some(m)
                ==> final(self).velocity == m),
            old(self).state != State::Attack && slide_result is None ==> final(self).velocity
                == old(self).velocity,
    {
        match self.state {
            State::Attack => {
                self.velocity = Vec2::zero();
            },
            _ => {
                if let Some(m) = slide_result {
                    self.velocity = m;
                }
            },
        }
    }
}

/// A player at rest that gets no directional input stays exactly at rest:
/// the input combines to the zero direction and the frame's velocity update
/// returns zero again.
pub proof fn lemma_rest_stays_at_rest(delta: int)
    requires
        0 <= delta,
    ensures
        spec_input_vector(0, 0, 0, 0) == (0int, 0int),
        spec_moved_velocity(0, 0, 0, 0, delta) == (0int, 0int),
{
    let step = FRICTION * delta;
    assert(0 <= step * step) by (nonlinear_arith);
    assert(spec_move_towards(0, 0, 0, 0, step) == (0int, 0int));
}

/// A full press on exactly one directional action normalizes to exactly one
/// world unit along that axis.
proof fn lemma_axis_input_unit(x: int, y: int)
    requires
        ((x == SCALE || x == -SCALE) && y == 0) || (x == 0 && (y == SCALE || y == -SCALE)),
    ensures
        spec_normalized(x, y) == (x, y),
{
    assert(is_sqrt_floor(x * x + y * y, 1000)) by (nonlinear_arith)
        requires
            ((x == 1000 || x == -1000) && y == 0) || (x == 0 && (y == 1000 || y == -1000)),
    ;
    lemma_sqrt_floor_is(x * x + y * y, 1000);
    assert(div_towards_zero(1000int * 1000, 1000) == 1000);
    assert(div_towards_zero((-1000int) * 1000, 1000) == -1000);
    assert(div_towards_zero(0int * 1000, 1000) == 0);
}

/// Full input on the horizontal axis drives the velocity straight toward
/// plus or minus top speed along that axis: the inputs normalize to one
/// world unit sideways, the vertical velocity stays zero, and each frame
/// closes the gap to the top speed by the acceleration step, until the gap
/// is within the step and the top speed is reached exactly.
pub proof fn lemma_single_axis_approach_horizontal(vx: int, right: int, left: int, delta: int)
    requires
        0 <= delta,
        (right == SCALE && left == 0) || (right == 0 && left == SCALE),
    ensures
        ({
            let sx: int = if right == SCALE {
                1
            } else {
                -1
            };
            let (ix, iy) = spec_input_vector(right, left, 0, 0);
            let (rx, ry) = spec_moved_velocity(vx, 0, ix, iy, delta);
            let target = sx * MAX_SPEED * SCALE;
            &&& ix == sx * SCALE && iy == 0
            &&& ry == 0
            &&& (abs(target - vx) <= ACCELERATION * delta ==> rx == target)
            &&& (abs(target - vx) > ACCELERATION * delta ==> abs(target - rx) == abs(target - vx)
                - ACCELERATION * delta)
        }),
{
    lemma_axis_input_unit(right - left, 0);
    let sx: int = if right == SCALE {
        1
    } else {
        -1
    };
    let (ix, iy) = spec_input_vector(right, left, 0, 0);
    let target = sx * MAX_SPEED * SCALE;
    if right == SCALE {
        assert(ix == 1000 && target == 80000 && ix * MAX_SPEED == 80000);
    } else {
        assert(ix == -1000 && target == -80000 && ix * MAX_SPEED == -80000);
    }
    assert(iy * MAX_SPEED == 0);
    lemma_move_towards_on_axis_x(vx, target, 0, ACCELERATION * delta);
}

/// Full input on the vertical axis drives the velocity straight toward plus
/// or minus top speed along that axis, exactly as the horizontal law does.
pub proof fn lemma_single_axis_approach_vertical(vy: int, down: int, up: int, delta: int)
    requires
        0 <= delta,
        (down == SCALE && up == 0) || (down == 0 && up == SCALE),
    ensures
        ({
            let sy: int = if down == SCALE {
                1
            } else {
                -1
            };
            let (ix, iy) = spec_input_vector(0, 0, down, up);
            let (rx, ry) = spec_moved_velocity(0, vy, ix, iy, delta);
            let target = sy * MAX_SPEED * SCALE;
            &&& ix == 0 && iy == sy * SCALE
            &&& rx == 0
            &&& (abs(target - vy) <= ACCELERATION * delta ==> ry == target)
            &&& (abs(target - vy) > ACCELERATION * delta ==> abs(target - ry) == abs(target - vy)
                - ACCELERATION * delta)
        }),
{
    lemma_axis_input_unit(0, down - up);
    let sy: int = if down == SCALE {
        1
    } else {
        -1
    };
    let (ix, iy) = spec_input_vector(0, 0, down, up);
    let target = sy * MAX_SPEED * SCALE;
    if down == SCALE {
        assert(iy == 1000 && target == 80000 && iy * MAX_SPEED == 80000);
    } else {
        assert(iy == -1000 && target == -80000 && iy * MAX_SPEED == -80000);
    }
    assert(ix * MAX_SPEED == 0);
    lemma_move_towards_on_axis_y(vy, target, 0, ACCELERATION * delta);
}

/// Whatever the current velocity, a frame of movement never recedes: with
/// input held, the velocity never gets farther from the input direction
/// times top speed; with no input, it never gets farther from rest.
pub proof fn lemma_velocity_never_recedes(vx: int, vy: int, ix: int, iy: int, delta: int)
    requires
        0 <= delta,
    ensures
        ({
            let (rx, ry) = spec_moved_velocity(vx, vy, ix, iy, delta);
            let tx = if ix == 0 && iy == 0 {
                0int
            } else {
                ix * MAX_SPEED
            };
            let ty = if ix == 0 && iy == 0 {
                0int
            } else {
                iy * MAX_SPEED
            };
            (tx - rx) * (tx - rx) + (ty - ry) * (ty - ry) <= (tx - vx) * (tx - vx) + (ty - vy)
                * (ty - vy)
        }),
{
    if ix == 0 && iy == 0 {
        lemma_move_towards_closes_in(vx, vy, 0, 0, FRICTION * delta);
    } else {
        lemma_move_towards_closes_in(vx, vy, ix * MAX_SPEED, iy * MAX_SPEED, ACCELERATION * delta);
    }
}

impl Default for Player {
    /// All fields zeroed, in the Move state.
    fn default() -> (r: Player)
        ensures
            r.wf(),
            r.velocity.x == 0 && r.velocity.y == 0,
            r.state == State::Move,
            r.roll_vector.x == 0 && r.roll_vector.y == 0,
    {
        Player { velocity: Vec2::zero(), state: State::Move, roll_vector: Vec2::zero() }
    }
}

} // verus!
