//! The one scaled simulation clock. Every system that moves things in the
//! game's time reads its tick length from here, so slow motion reaches all of
//! them alike.

use vstd::prelude::*;
use vstd::arithmetic::div_mod::{lemma_div_is_ordered, lemma_div_by_multiple};
use crate::easing::PROGRESS_ONE;

verus! {

/// Longest tick accepted, in milliseconds.
pub const DELTA_LIMIT: u64 = 65536;

/// The slowest the clock may run, in basis points of real time (0.1x). The
/// game never fully pauses during slow motion.
pub const SLOW_MO_SCALING_FACTOR: u64 = 1000;

/// The scaled clock: its speed relative to real time, and the length of the
/// current tick.
#[derive(Clone, Copy, Debug, PartialEq, Eq, Structural)]
pub struct DilatedTime {
    /// Clock speed in basis points of real time.
    pub scaling_factor: u64,
    /// Scaled length of the current tick, in milliseconds.
    pub delta: u64,
}

/// The scaled length of a tick of `elapsed` milliseconds of real time, rounded down.
pub open spec fn scaled_delta(factor: int, elapsed: int) -> int {
    elapsed * factor / (PROGRESS_ONE as int)
}

impl DilatedTime {
    /// Clock speed between the slow-motion floor and real time; the tick fits
    /// `DELTA_LIMIT`.
    pub open spec fn wf(self) -> bool {
        SLOW_MO_SCALING_FACTOR <= self.scaling_factor <= PROGRESS_ONE && self.delta
            <= DELTA_LIMIT
    }

    /// Scaled length of the current tick, in milliseconds.
    pub fn delta(&self) -> (r: u64)
        ensures
            r == self.delta,
    {
        self.delta
    }

    /// Sets the clock speed, raised to the slow-motion floor and capped at
    /// real time.
    pub fn set_relative_speed(&mut self, factor: u64)
        requires
            old(self).wf(),
        ensures
            final(self).scaling_factor == (if factor < SLOW_MO_SCALING_FACTOR {
                SLOW_MO_SCALING_FACTOR
            } else if factor > PROGRESS_ONE {
                PROGRESS_ONE
            } else {
                factor
            }),
            final(self).delta == old(self).delta,
            final(self).wf(),
    {
        self.scaling_factor = if factor < SLOW_MO_SCALING_FACTOR {
            SLOW_MO_SCALING_FACTOR
        } else if factor > PROGRESS_ONE {
            PROGRESS_ONE
        } else {
            factor
        };
    }

    /// Starts a tick that lasted `elapsed` milliseconds of real time.
    pub fn scale_time(&mut self, elapsed: u64)
        requires
            old(self).wf(),
            elapsed <= DELTA_LIMIT,
        ensures
            final(self).scaling_factor == old(self).scaling_factor,
            final(self).delta as int == scaled_delta(old(self).scaling_factor as int, elapsed as int),
            final(self).wf(),
    {
        assert(elapsed * self.scaling_factor <= DELTA_LIMIT * PROGRESS_ONE) by (nonlinear_arith)
            requires elapsed <= DELTA_LIMIT, self.scaling_factor <= PROGRESS_ONE;
        proof {
            lemma_div_is_ordered(
                (elapsed * self.scaling_factor) as int,
                (DELTA_LIMIT * PROGRESS_ONE) as int,
                PROGRESS_ONE as int,
            );
            lemma_div_by_multiple(DELTA_LIMIT as int, PROGRESS_ONE as int);
        }
        self.delta = elapsed * self.scaling_factor / PROGRESS_ONE;
    }
}

impl Default for DilatedTime {
    /// Real-time speed, no tick yet.
    fn default() -> (r: Self)
        ensures
            r == (DilatedTime { scaling_factor: PROGRESS_ONE, delta: 0 }),
            r.wf(),
    {
        DilatedTime { scaling_factor: PROGRESS_ONE, delta: 0 }
    }
}

} // verus!
