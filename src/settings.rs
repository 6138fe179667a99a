//! Tuning of the projectile's flight.

use vstd::prelude::*;
use crate::easing::{EaseFunction, PROGRESS_ONE, ease, lerp, lerp_speed};

verus! {

/// Largest speed any setting may hold, per second (millimetres, or
/// milliradians for spin).
pub const SPEED_LIMIT: u64 = 16777216;

/// Height at which projectiles fly, in millimetres.
pub const BOOMERANG_FLYING_HEIGHT: i64 = 500;

/// Current set of stats of the projectile. Speeds are per second: movement and
/// falling in millimetres, rotation in milliradians.
#[derive(Clone, Copy, Debug, PartialEq, Eq, Structural)]
pub struct BoomerangSettings {
    pub min_movement_speed: u64,
    pub max_movement_speed: u64,
    pub min_rotation_speed: u64,
    pub max_rotation_speed: u64,
    pub falling_speed: u64,
    pub easing_function: EaseFunction,
}

/// Speed at progress `t` on a segment: `min` to `max` along the settings' curve.
pub open spec fn eased_speed(s: BoomerangSettings, min: int, max: int, t: int) -> int {
    lerp(min, max, ease(s.easing_function, t))
}

pub open spec fn movement_speed_at(s: BoomerangSettings, t: int) -> int {
    eased_speed(s, s.min_movement_speed as int, s.max_movement_speed as int, t)
}

pub open spec fn rotation_speed_at(s: BoomerangSettings, t: int) -> int {
    eased_speed(s, s.min_rotation_speed as int, s.max_rotation_speed as int, t)
}

impl BoomerangSettings {
    /// Each minimum is at most its maximum, and no speed passes `SPEED_LIMIT`.
    pub open spec fn wf(self) -> bool {
        &&& self.min_movement_speed <= self.max_movement_speed <= SPEED_LIMIT
        &&& self.min_rotation_speed <= self.max_rotation_speed <= SPEED_LIMIT
        &&& self.falling_speed <= SPEED_LIMIT
    }

    /// The value between `min` and `max` at `progress` along the easing curve.
    pub fn tween_values(&self, min: u64, max: u64, progress: u64) -> (r: u64)
        requires
            min <= max <= SPEED_LIMIT,
            progress <= PROGRESS_ONE,
        ensures
            r as int == eased_speed(*self, min as int, max as int, progress as int),
            min <= r <= 3 * SPEED_LIMIT,
    {
        let e = self.easing_function.sample(progress);
        lerp_speed(min, max, e)
    }

    pub fn tween_movement_speed(&self, progress: u64) -> (r: u64)
        requires
            self.wf(),
            progress <= PROGRESS_ONE,
        ensures
            r as int == movement_speed_at(*self, progress as int),
            r <= 3 * SPEED_LIMIT,
    {
        self.tween_values(self.min_movement_speed, self.max_movement_speed, progress)
    }

    pub fn tween_rotation_speed(&self, progress: u64) -> (r: u64)
        requires
            self.wf(),
            progress <= PROGRESS_ONE,
        ensures
            r as int == rotation_speed_at(*self, progress as int),
            r <= 3 * SPEED_LIMIT,
    {
        self.tween_values(self.min_rotation_speed, self.max_rotation_speed, progress)
    }
}

impl Default for BoomerangSettings {
    fn default() -> (r: Self)
        ensures
            r == (BoomerangSettings {
                min_movement_speed: 8000,
                max_movement_speed: 18000,
                min_rotation_speed: 10000,
                max_rotation_speed: 25000,
                falling_speed: 5000,
                easing_function: EaseFunction::BackOut,
            }),
            r.wf(),
    {
        BoomerangSettings {
            min_movement_speed: 8000,
            max_movement_speed: 18000,
            min_rotation_speed: 10000,
            max_rotation_speed: 25000,
            falling_speed: 5000,
            easing_function: EaseFunction::BackOut,
        }
    }
}

} // verus!
