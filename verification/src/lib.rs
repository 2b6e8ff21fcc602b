//! Core logic of a 2D arcade ball-splitting game.
//!
//! The library models the game's registry of ball entities and the
//! collision-driven split engine on top of it: deciding which collisions
//! destroy a ball, computing the split geometry and speed, propagating
//! chain identity through cascades, and keeping spawns and despawns
//! consistent within one event batch.
//!
//! All quantities are integers. Positions, velocities and speeds are in
//! whole world units; ratios (the speed factor, audio pitch, aim
//! directions) are in thousandths. The engine shell converts between
//! these units and its own floating-point state at the boundary.

use vstd::prelude::*;

pub mod audio;
pub mod balls;
pub mod geom;
pub mod level;
pub mod num;
pub mod player;
pub mod split;
pub mod world;

verus! {

/// Visual radius of every ball, in world units.
pub const BALL_RADIUS: i64 = 30;

/// Clearance between the two balls born of a split, in world units,
/// so they do not overlap at once.
pub const SPLIT_GAP: i64 = 3;

/// Largest world coordinate the library accepts from the caller.
pub const COORD_LIMIT: i64 = 1_000_000;

/// Largest coordinate any stored entity can reach: a caller-placed
/// ball pushed out by one spawn offset of half the ball radius plus
/// the split gap.
pub const POS_LIMIT: i64 = 1_000_018;

/// Largest velocity component the library accepts from the caller.
pub const VEL_LIMIT: i64 = 1_000_000;

} // verus!
