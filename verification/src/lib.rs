//! Per-tick decision logic for two scripted game entities of a 2D action
//! game: a player character driven by a Move/Attack/Roll state machine, and
//! a bat enemy driven by a decaying knockback impulse.
//!
//! The host engine owns rendering, input devices, animation blending and the
//! physics solver; it calls into this library once per frame and once per
//! physics tick and carries out the decisions it gets back. All geometry is
//! held in fixed-point coordinates ([`vec2::SCALE`] subunits to the world
//! unit), so every velocity update, state transition and decay step here is
//! exact integer arithmetic with proved contracts.

pub mod bat;
pub mod player;
pub mod sword_hitbox;
pub mod vec2;
