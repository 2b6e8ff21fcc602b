//! The player's shooting force and where a shot starts.
//!
//! Aiming itself (mouse tracking, rotation) happens outside the core;
//! the core receives the aim as a direction in thousandths of a unit
//! vector and decides the muzzle position and the shot's initial
//! velocity.

use vstd::prelude::*;
use crate::geom::Vec2;
use crate::balls::InitialVelocity;
use crate::num::lemma_mul_div_tz_bound;
use crate::COORD_LIMIT;
use crate::VEL_LIMIT;

verus! {

/// Distance from the player's center to the muzzle, in world units.
pub const GUN_LENGTH: i64 = 100;

/// The force a shot is fired with, stepped up and down between two
/// bounds.
#[derive(Clone, Copy, Debug)]
pub struct ShootingForce {
    pub value: i64,
    pub min: i64,
    pub max: i64,
    pub step: i64,
}

impl ShootingForce {
    /// The force lies between its bounds and all tuning is small
    /// enough to step without overflow.
    pub open spec fn wf(self) -> bool {
        &&& 0 <= self.min <= self.max <= VEL_LIMIT
        &&& 0 <= self.step <= VEL_LIMIT
        &&& self.min <= self.value <= self.max
    }

    /// Raise the force by one step, capped at the maximum.
    pub fn increase(&mut self)
        requires
            old(self).wf(),
        ensures
            final(self).wf(),
            final(self).value == (if old(self).value + old(self).step > old(self).max {
                old(self).max as int
            } else {
                old(self).value + old(self).step
            }),
            final(self).min == old(self).min,
            final(self).max == old(self).max,
            final(self).step == old(self).step,
    {
        let raised = self.value + self.step;
        self.value = if raised > self.max {
            self.max
        } else {
            raised
        };
    }

    /// Lower the force by one step, stopping at the minimum.
    pub fn decrease(&mut self)
        requires
            old(self).wf(),
        ensures
            final(self).wf(),
            final(self).value == (if old(self).value - old(self).step < old(self).min {
                old(self).min as int
            } else {
                old(self).value - old(self).step
            }),
            final(self).min == old(self).min,
            final(self).max == old(self).max,
            final(self).step == old(self).step,
    {
        let lowered = self.value - self.step;
        self.value = if lowered < self.min {
            self.min
        } else {
            lowered
        };
    }
}

impl Default for ShootingForce {
    /// The default tuning of the launcher.
    fn default() -> (r: Self)
        ensures
            r.value == 13_000,
            r.min == 5_000,
            r.max == 100_000,
            r.step == 1_000,
            r.wf(),
    {
        ShootingForce { value: 13_000, min: 5_000, max: 100_000, step: 1_000 }
    }
}

/// Where a shot starts and how fast it flies: the muzzle sits one gun
/// length from the player along the aim, and the initial velocity is
/// the aim scaled by the force. `dir_milli` is the aim direction in
/// thousandths of a unit vector.
pub fn shot_spawn(position: Vec2, dir_milli: Vec2, force: i64) -> (r: (Vec2, InitialVelocity))
    requires
        position.in_range(COORD_LIMIT as int - GUN_LENGTH as int),
        dir_milli.in_range(1000),
        0 <= force <= VEL_LIMIT,
    ensures
        r.0 == position.add_spec(dir_milli.scale_div_spec(GUN_LENGTH as int, 1000)),
        r.1.0 == dir_milli.scale_div_spec(force as int, 1000),
        r.0.in_range(COORD_LIMIT as int),
        r.1.0.in_range(VEL_LIMIT as int),
{
    proof {
        lemma_mul_div_tz_bound(dir_milli.x as int, GUN_LENGTH as int, 1000);
        lemma_mul_div_tz_bound(dir_milli.y as int, GUN_LENGTH as int, 1000);
        lemma_mul_div_tz_bound(dir_milli.x as int, force as int, 1000);
        lemma_mul_div_tz_bound(dir_milli.y as int, force as int, 1000);
    }
    let muzzle = position.add(dir_milli.scale_div(GUN_LENGTH, 1000));
    let velocity = dir_milli.scale_div(force, 1000);
    (muzzle, InitialVelocity(velocity))
}

} // verus!
