//! Ball kinds, their components, and spawn-time physical setup.
//!
//! A `LevelBall` is a breakable field ball: static while untouched,
//! dynamic once produced by a split. An `AmmoBall` is a player-fired
//! projectile. Attach-time setup is modeled as factory functions that
//! return the physical description handed to the physics engine, so it
//! runs exactly once per entity by construction.

use vstd::prelude::*;
use crate::geom::Vec2;
use crate::BALL_RADIUS;

verus! {

/// Mass of a breakable field ball, in mass units.
pub const LEVEL_BALL_MASS: i64 = 6;

/// Mass of a fired projectile: heavier than targets on purpose, so the
/// impulse of the shot dominates the collision response.
pub const AMMO_BALL_MASS: i64 = 32;

/// Restitution of a field ball, in thousandths.
pub const RESTITUTION_MILLI: i64 = 1000;

/// A breakable field ball. `static_body` is true only for untouched
/// original placements; split products are dynamic.
#[derive(Clone, Copy, PartialEq, Eq, Structural, Debug)]
pub struct LevelBall {
    pub static_body: bool,
}

/// Marker for a player-fired projectile ball.
#[derive(Clone, Copy, PartialEq, Eq, Structural, Debug)]
pub struct AmmoBall;

/// Identity of the cascade a ball belongs to, copied unchanged to both
/// children whenever its bearer triggers a split.
#[derive(Clone, Copy, PartialEq, Eq, Structural, Debug)]
pub struct SplitChain {
    pub ammo_id: u32,
}

/// A one-shot directive: the velocity to impart to a freshly spawned
/// ball. It is consumed at creation and has no further effect.
#[derive(Clone, Copy, PartialEq, Eq, Structural, Debug)]
pub struct InitialVelocity(pub Vec2);

/// A dynamic body's velocity as of the previous physics step, the
/// stable input to the split-speed formula.
#[derive(Clone, Copy, PartialEq, Eq, Structural, Debug)]
pub struct PreviousVelocity(pub Vec2);

/// How the physics engine should integrate a body.
#[derive(Clone, Copy, PartialEq, Eq, Structural, Debug)]
pub enum BodyKind {
    Static,
    Dynamic,
}

/// The physical description handed to the physics engine when a ball
/// is created.
#[derive(Clone, Copy, PartialEq, Eq, Structural, Debug)]
pub struct BodySetup {
    pub body: BodyKind,
    /// Radius of the circular collider, in world units.
    pub collider_radius: i64,
    /// Edge length of the square visual, in world units.
    pub visual_radius: i64,
    pub mass: i64,
    /// Bounciness in thousandths; a thousand keeps all energy.
    pub restitution_milli: i64,
    /// Whether the body reports collision-started events.
    pub collision_events: bool,
}

/// Physical setup of a field ball. The collider is half the visual
/// radius on purpose: the picture overhangs the hit circle, which is
/// forgiving against dense stacks.
pub fn level_ball_setup(ball: &LevelBall) -> (r: BodySetup)
    ensures
        r.body == (if ball.static_body {
            BodyKind::Static
        } else {
            BodyKind::Dynamic
        }),
        r.collider_radius == BALL_RADIUS / 2,
        r.visual_radius == BALL_RADIUS,
        r.mass == LEVEL_BALL_MASS,
        r.restitution_milli == RESTITUTION_MILLI,
        r.collision_events,
{
    BodySetup {
        body: if ball.static_body {
            BodyKind::Static
        } else {
            BodyKind::Dynamic
        },
        collider_radius: BALL_RADIUS / 2,
        visual_radius: BALL_RADIUS,
        mass: LEVEL_BALL_MASS,
        restitution_milli: RESTITUTION_MILLI,
        collision_events: true,
    }
}

/// Physical setup of a projectile ball: always dynamic, full-radius
/// collider, and heavy.
pub fn ammo_ball_setup() -> (r: BodySetup)
    ensures
        r.body == BodyKind::Dynamic,
        r.collider_radius == BALL_RADIUS,
        r.visual_radius == BALL_RADIUS,
        r.mass == AMMO_BALL_MASS,
        r.restitution_milli == RESTITUTION_MILLI,
        r.collision_events,
{
    BodySetup {
        body: BodyKind::Dynamic,
        collider_radius: BALL_RADIUS,
        visual_radius: BALL_RADIUS,
        mass: AMMO_BALL_MASS,
        restitution_milli: RESTITUTION_MILLI,
        collision_events: true,
    }
}

} // verus!
