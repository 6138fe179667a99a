//! Easing curves on fixed-point progress, and interpolation between two speeds.

use vstd::prelude::*;
use vstd::arithmetic::div_mod::{lemma_div_is_ordered, lemma_div_by_multiple};

verus! {

/// One whole, in basis points: progress runs from 0 to `PROGRESS_ONE`.
pub const PROGRESS_ONE: u64 = 10000;

/// Largest value an easing curve takes: overshooting curves rise above one.
pub const EASE_LIMIT: u64 = 30000;

/// First constant of the back-out curve (1.70158), in basis points.
pub const BACK_C1: u64 = 17016;

/// Second constant of the back-out curve (`BACK_C1` plus one), in basis points.
pub const BACK_C3: u64 = 27016;

/// The shape of an eased transition from 0 to 1.
#[derive(Clone, Copy, Debug, PartialEq, Eq, Structural)]
pub enum EaseFunction {
    Linear,
    QuadraticIn,
    QuadraticOut,
    QuadraticInOut,
    CubicIn,
    CubicOut,
    CubicInOut,
    QuarticIn,
    QuarticOut,
    SmoothStep,
    BackIn,
    BackOut,
}

/// The curve `f` at progress `t`, both in basis points, rounded down. Where
/// a back curve would dip below zero it is held at zero.
pub open spec fn ease(f: EaseFunction, t: int) -> int {
    let s = PROGRESS_ONE as int;
    let v = s - t;
    match f {
        EaseFunction::Linear => t,
        EaseFunction::QuadraticIn => t * t / s,
        EaseFunction::QuadraticOut => s - v * v / s,
        EaseFunction::QuadraticInOut => if 2 * t < s {
            2 * (t * t) / s
        } else {
            s - 2 * (v * v) / s
        },
        EaseFunction::CubicIn => t * t * t / (s * s),
        EaseFunction::CubicOut => s - v * v * v / (s * s),
        EaseFunction::CubicInOut => if 2 * t < s {
            4 * (t * t * t) / (s * s)
        } else {
            s - 4 * (v * v * v) / (s * s)
        },
        EaseFunction::QuarticIn => t * t * t * t / (s * s * s),
        EaseFunction::QuarticOut => s - v * v * v * v / (s * s * s),
        EaseFunction::SmoothStep => t * t * (3 * s - 2 * t) / (s * s),
        EaseFunction::BackIn => {
            let up = BACK_C3 * (t * t * t) / (s * s * s);
            let down = BACK_C1 * (t * t) / (s * s);
            if down >= up {
                0
            } else {
                up - down
            }
        },
        EaseFunction::BackOut => {
            let up = s + BACK_C1 * (v * v) / (s * s);
            let down = BACK_C3 * (v * v * v) / (s * s * s);
            if down >= up {
                0
            } else {
                up - down
            }
        },
    }
}

proof fn lemma_frac_le(x: int, y: int, d: int)
    requires
        0 <= x <= y,
        0 < d,
    ensures
        0 <= x / d <= y / d,
{
    lemma_div_is_ordered(x, y, d);
    lemma_div_is_ordered(0, x, d);
}

impl EaseFunction {
    /// The curve at progress `t`.
    pub fn sample(self, t: u64) -> (r: u64)
        requires
            t <= PROGRESS_ONE,
        ensures
            r as int == ease(self, t as int),
            r <= EASE_LIMIT,
    {
        let s = PROGRESS_ONE;
        let v = s - t;
        assert(t * t <= s * s && v * v <= s * s && t * t * t <= s * s * s && v * v * v <= s * s
            * s) by (nonlinear_arith)
            requires t <= s, v <= s;
        assert(t * t >= 0 && v * v >= 0 && t * t * t >= 0 && v * v * v >= 0) by (nonlinear_arith);
        proof {
            lemma_div_by_multiple(s as int, s as int);
            assert(s * s * s == (s * s) * s) by (nonlinear_arith);
            lemma_div_by_multiple(s as int, (s * s) as int);
        }
        match self {
            EaseFunction::Linear => t,
            EaseFunction::QuadraticIn => {
                proof {
                    lemma_frac_le((t * t) as int, (s * s) as int, s as int);
                }
                t * t / s
            },
            EaseFunction::QuadraticOut => {
                proof {
                    lemma_frac_le((v * v) as int, (s * s) as int, s as int);
                }
                s - v * v / s
            },
            EaseFunction::CubicIn => {
                proof {
                    lemma_frac_le((t * t * t) as int, (s * s * s) as int, (s * s) as int);
                }
                t * t * t / (s * s)
            },
            EaseFunction::CubicOut => {
                proof {
                    lemma_frac_le((v * v * v) as int, (s * s * s) as int, (s * s) as int);
                }
                s - v * v * v / (s * s)
            },
            EaseFunction::QuadraticInOut => {
                if 2 * t < s {
                    assert(2 * (t * t) <= (s / 2) * s) by (nonlinear_arith)
                        requires 2 * t < s, s == 10000;
                    proof {
                        lemma_frac_le((2 * (t * t)) as int, ((s / 2) * s) as int, s as int);
                        lemma_div_by_multiple((s / 2) as int, s as int);
                    }
                    2 * (t * t) / s
                } else {
                    assert(2 * (v * v) <= (s / 2) * s) by (nonlinear_arith)
                        requires 2 * t >= s, v == s - t, t <= s, s == 10000;
                    proof {
                        lemma_frac_le((2 * (v * v)) as int, ((s / 2) * s) as int, s as int);
                        lemma_div_by_multiple((s / 2) as int, s as int);
                    }
                    s - 2 * (v * v) / s
                }
            },
            EaseFunction::CubicInOut => {
                if 2 * t < s {
                    assert(4 * (t * t * t) <= (s / 2) * (s * s)) by (nonlinear_arith)
                        requires 2 * t < s, s == 10000;
                    proof {
                        lemma_frac_le((4 * (t * t * t)) as int, ((s / 2) * (s * s)) as int, (s * s) as int);
                        lemma_div_by_multiple((s / 2) as int, (s * s) as int);
                    }
                    4 * (t * t * t) / (s * s)
                } else {
                    assert(4 * (v * v * v) <= (s / 2) * (s * s)) by (nonlinear_arith)
                        requires 2 * t >= s, v == s - t, t <= s, s == 10000;
                    proof {
                        lemma_frac_le((4 * (v * v * v)) as int, ((s / 2) * (s * s)) as int, (s * s) as int);
                        lemma_div_by_multiple((s / 2) as int, (s * s) as int);
                    }
                    s - 4 * (v * v * v) / (s * s)
                }
            },
            EaseFunction::QuarticIn => {
                assert(t * t * t * t <= s * (s * s * s) && 0 <= t * t * t * t) by (nonlinear_arith)
                    requires t <= s, s == 10000;
                proof {
                    lemma_frac_le((t * t * t * t) as int, (s * (s * s * s)) as int, (s * s * s) as int);
                    lemma_div_by_multiple(s as int, (s * s * s) as int);
                }
                t * t * t * t / (s * s * s)
            },
            EaseFunction::QuarticOut => {
                assert(v * v * v * v <= s * (s * s * s) && 0 <= v * v * v * v) by (nonlinear_arith)
                    requires v <= s, s == 10000;
                proof {
                    lemma_frac_le((v * v * v * v) as int, (s * (s * s * s)) as int, (s * s * s) as int);
                    lemma_div_by_multiple(s as int, (s * s * s) as int);
                }
                s - v * v * v * v / (s * s * s)
            },
            EaseFunction::BackIn => {
                assert(BACK_C3 * (t * t * t) <= BACK_C3 * (s * s * s) && 0 <= BACK_C3 * (t * t * t)) by (nonlinear_arith)
                    requires t * t * t <= s * s * s, 0 <= t * t * t;
                proof {
                    lemma_frac_le((BACK_C3 * (t * t * t)) as int, (BACK_C3 * (s * s * s)) as int, (s * s * s) as int);
                    lemma_div_by_multiple(BACK_C3 as int, (s * s * s) as int);
                }
                let up = BACK_C3 * (t * t * t) / (s * s * s);
                let down = BACK_C1 * (t * t) / (s * s);
                if down >= up {
                    0
                } else {
                    up - down
                }
            },
            EaseFunction::SmoothStep => {
                assert(t * t * (3 * s - 2 * t) <= s * s * s) by (nonlinear_arith)
                    requires 0 <= t <= s;
                assert(0 <= t * t * (3 * s - 2 * t)) by (nonlinear_arith)
                    requires 0 <= t <= s;
                proof {
                    lemma_frac_le(
                        (t * t * (3 * s - 2 * t)) as int,
                        (s * s * s) as int,
                        (s * s) as int,
                    );
                }
                t * t * (3 * s - 2 * t) / (s * s)
            },
            EaseFunction::BackOut => {
                assert(BACK_C1 * (v * v) <= BACK_C1 * (s * s)) by (nonlinear_arith)
                    requires v * v <= s * s;
                assert(0 <= BACK_C1 * (v * v)) by (nonlinear_arith);
                proof {
                    lemma_div_by_multiple(BACK_C1 as int, (s * s) as int);
                    lemma_frac_le((BACK_C1 * (v * v)) as int, (BACK_C1 * (s * s)) as int, (s * s) as int);
                }
                let up = s + BACK_C1 * (v * v) / (s * s);
                let down = BACK_C3 * (v * v * v) / (s * s * s);
                if down >= up {
                    0
                } else {
                    up - down
                }
            },
        }
    }
}

/// The value between `min` and `max` at eased value `e` (basis points),
/// rounded down. An overshooting curve may carry it past `max`.
pub open spec fn lerp(min: int, max: int, e: int) -> int {
    min + (max - min) * e / (PROGRESS_ONE as int)
}

/// Interpolates from `min` to `max` by the eased value `e`.
pub fn lerp_speed(min: u64, max: u64, e: u64) -> (r: u64)
    requires
        min <= max <= 0x1_0000_0000,
        e <= EASE_LIMIT,
    ensures
        r as int == lerp(min as int, max as int, e as int),
        min <= r <= min + 3 * (max - min),
{
    let d = max - min;
    assert(d * e <= d * EASE_LIMIT) by (nonlinear_arith)
        requires e <= EASE_LIMIT, d >= 0;
    assert(0 <= d * e) by (nonlinear_arith)
        requires e >= 0, d >= 0;
    assert(d * EASE_LIMIT == (3 * d) * PROGRESS_ONE) by (nonlinear_arith);
    proof {
        lemma_div_by_multiple(3 * d, PROGRESS_ONE as int);
        lemma_frac_le((d * e) as int, (3 * d * PROGRESS_ONE) as int, PROGRESS_ONE as int);
    }
    min + d * e / PROGRESS_ONE
}

} // verus!
