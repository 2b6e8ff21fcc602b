//! Collision-sound feedback: pitch escalation along a cascade.
//!
//! The sound itself is played outside the core; this module holds the
//! tuning and the pitch rule, so the feedback cannot drift from the
//! chain census. Ratios are in thousandths: a pitch of one thousand is
//! normal playback speed.

use vstd::prelude::*;

verus! {

/// Tuning of the collision sound.
#[derive(Clone, Copy, Debug)]
pub struct CollisionSoundConfig {
    /// Base playback speed, in thousandths; a thousand is normal.
    pub base_speed_milli: i64,
    /// Largest random variation of playback speed, in thousandths.
    pub speed_variation_milli: i64,
    /// Pitch gained per ball of the cascade, in thousandths.
    pub pitch_per_ball_milli: i64,
    /// Hard cap of the pitch multiplier, in thousandths.
    pub max_pitch_milli: i64,
    /// At most this many collision sounds at once.
    pub max_simultaneous_sounds: usize,
}

impl Default for CollisionSoundConfig {
    /// Normal speed, a tenth of variation, six hundredths of pitch
    /// per ball, capped at two and a half, eight sounds at once.
    fn default() -> (r: Self)
        ensures
            r.base_speed_milli == 1000,
            r.speed_variation_milli == 100,
            r.pitch_per_ball_milli == 60,
            r.max_pitch_milli == 2500,
            r.max_simultaneous_sounds == 8,
    {
        CollisionSoundConfig {
            base_speed_milli: 1000,
            speed_variation_milli: 100,
            pitch_per_ball_milli: 60,
            max_pitch_milli: 2500,
            max_simultaneous_sounds: 8,
        }
    }
}

/// The pitch of a collision sound in a cascade `chain_count` balls
/// strong: one whole raised by the per-ball gain, capped.
pub open spec fn pitch_spec(pitch_per_ball: int, max_pitch: int, chain_count: int) -> int {
    if 1000 + chain_count * pitch_per_ball <= max_pitch {
        1000 + chain_count * pitch_per_ball
    } else {
        max_pitch
    }
}

impl CollisionSoundConfig {
    /// Compute the pitch for a cascade of the given size, in
    /// thousandths.
    pub fn collision_pitch_milli(&self, chain_count: usize) -> (r: i64)
        requires
            0 <= self.pitch_per_ball_milli <= 1000,
            1000 <= self.max_pitch_milli <= 1_000_000,
            chain_count <= 1_000_000_000,
        ensures
            r == pitch_spec(
                self.pitch_per_ball_milli as int,
                self.max_pitch_milli as int,
                chain_count as int,
            ),
    {
        proof {
            assert(0 <= (chain_count as int) * (self.pitch_per_ball_milli as int)
                <= 1_000_000_000_000) by (nonlinear_arith)
                requires
                    0 <= chain_count <= 1_000_000_000usize,
                    0 <= self.pitch_per_ball_milli <= 1000i64,
            {
            }
        }
        let raw: i64 = 1000 + (chain_count as i64) * self.pitch_per_ball_milli;
        if raw <= self.max_pitch_milli {
            raw
        } else {
            self.max_pitch_milli
        }
    }

    /// Whether another collision sound may start while `active` are
    /// already playing.
    pub fn may_play(&self, active: usize) -> (r: bool)
        ensures
            r == (active < self.max_simultaneous_sounds),
    {
        active < self.max_simultaneous_sounds
    }
}

} // verus!
