//! Fixed-point three-dimensional positions, squared distances and the integer
//! square root that turns them into lengths.

use vstd::prelude::*;
use vstd::arithmetic::mul::{lemma_mul_inequality, lemma_mul_strict_inequality};
use vstd::arithmetic::div_mod::{lemma_div_is_ordered, lemma_div_by_multiple};

verus! {

/// Largest magnitude of a coordinate, in millimetres (a little over 1000 km).
pub const COORD_LIMIT: i64 = 1073741824;

/// A position in world space, in millimetres. `y` is the vertical axis.
#[derive(Clone, Copy, Debug, PartialEq, Eq, Structural)]
pub struct Vec3 {
    pub x: i64,
    pub y: i64,
    pub z: i64,
}

pub open spec fn coord_ok(c: int) -> bool {
    -COORD_LIMIT <= c <= COORD_LIMIT
}

impl Vec3 {
    /// Every coordinate lies within `COORD_LIMIT`.
    pub open spec fn in_bounds(self) -> bool {
        coord_ok(self.x as int) && coord_ok(self.y as int) && coord_ok(self.z as int)
    }

    pub fn new(x: i64, y: i64, z: i64) -> (r: Vec3)
        ensures
            r == (Vec3 { x, y, z }),
    {
        Vec3 { x, y, z }
    }

    /// Whether every coordinate lies within `COORD_LIMIT`.
    pub fn is_in_bounds(&self) -> (r: bool)
        ensures
            r == self.in_bounds(),
    {
        -COORD_LIMIT <= self.x && self.x <= COORD_LIMIT && -COORD_LIMIT <= self.y && self.y
            <= COORD_LIMIT && -COORD_LIMIT <= self.z && self.z <= COORD_LIMIT
    }

    /// The same position moved to height `y`.
    pub fn with_y(self, y: i64) -> (r: Vec3)
        ensures
            r == (Vec3 { x: self.x, y, z: self.z }),
    {
        Vec3 { x: self.x, y, z: self.z }
    }
}

pub open spec fn sq(a: int) -> int {
    a * a
}

/// Squared Euclidean distance between two positions.
pub open spec fn dist_sq(a: Vec3, b: Vec3) -> int {
    sq(b.x - a.x) + sq(b.y - a.y) + sq(b.z - a.z)
}

/// `r` is the integer square root of `n`, rounded down.
pub open spec fn is_floor_sqrt(r: int, n: int) -> bool {
    0 <= r && r * r <= n && n < (r + 1) * (r + 1)
}

pub open spec fn floor_sqrt(n: int) -> int {
    choose|r: int| is_floor_sqrt(r, n)
}

/// Euclidean distance between two positions, rounded down to a millimetre.
pub open spec fn dist(a: Vec3, b: Vec3) -> int {
    floor_sqrt(dist_sq(a, b))
}

proof fn lemma_square_le(a: int, b: int)
    requires
        0 <= a <= b,
    ensures
        a * a <= b * b,
{
    lemma_mul_inequality(a, b, a);
    lemma_mul_inequality(a, b, b);
}

/// The integer square root is unique, so `floor_sqrt` names it.
pub proof fn lemma_floor_sqrt_unique(r: int, n: int)
    requires
        is_floor_sqrt(r, n),
    ensures
        floor_sqrt(n) == r,
{
    let s = floor_sqrt(n);
    assert(is_floor_sqrt(s, n));
    if s < r {
        lemma_square_le(s + 1, r);
    } else if r < s {
        lemma_square_le(r + 1, s);
    }
}

/// Largest difference of two in-bounds coordinates, squared and summed over
/// three axes, fits in a `u64`.
proof fn lemma_sq_bound(d: int)
    requires
        -2 * COORD_LIMIT <= d <= 2 * COORD_LIMIT,
    ensures
        0 <= sq(d) <= 4 * COORD_LIMIT * COORD_LIMIT,
{
    let a = if d >= 0 { d } else { -d };
    assert(d * d == a * a) by (nonlinear_arith)
        requires a == d || a == -d;
    lemma_square_le(a, 2 * COORD_LIMIT);
    assert(0 <= a * a) by (nonlinear_arith)
        requires 0 <= a;
}

fn abs_diff(a: i64, b: i64) -> (r: u64)
    requires
        coord_ok(a as int),
        coord_ok(b as int),
    ensures
        r as int == (if a <= b { b - a } else { a - b }),
        r <= 2 * COORD_LIMIT,
{
    if a <= b {
        (b - a) as u64
    } else {
        (a - b) as u64
    }
}

/// Squared distance between two in-bounds positions.
pub fn distance_squared(a: Vec3, b: Vec3) -> (r: u64)
    requires
        a.in_bounds(),
        b.in_bounds(),
    ensures
        r as int == dist_sq(a, b),
{
    let dx = abs_diff(a.x, b.x);
    let dy = abs_diff(a.y, b.y);
    let dz = abs_diff(a.z, b.z);
    proof {
        assert(sq(b.x - a.x) == dx * dx) by (nonlinear_arith)
            requires dx as int == (if a.x <= b.x { b.x - a.x } else { a.x - b.x });
        assert(sq(b.y - a.y) == dy * dy) by (nonlinear_arith)
            requires dy as int == (if a.y <= b.y { b.y - a.y } else { a.y - b.y });
        assert(sq(b.z - a.z) == dz * dz) by (nonlinear_arith)
            requires dz as int == (if a.z <= b.z { b.z - a.z } else { a.z - b.z });
        lemma_sq_bound(dx as int);
        lemma_sq_bound(dy as int);
        lemma_sq_bound(dz as int);
    }
    dx * dx + dy * dy + dz * dz
}

/// Integer square root, rounded down.
pub fn isqrt(n: u64) -> (r: u64)
    ensures
        is_floor_sqrt(r as int, n as int),
{
    let mut lo: u64 = 0;
    let mut hi: u64 = 4294967296;
    assert(n < hi * hi) by (nonlinear_arith)
        requires hi == 4294967296u64, n <= u64::MAX;
    while hi - lo > 1
        invariant
            lo < hi <= 4294967296,
            lo * lo <= n,
            n < hi * hi,
        decreases hi - lo,
    {
        let mid = lo + (hi - lo) / 2;
        assert(mid * mid <= 4294967295u64 * 4294967295u64) by (nonlinear_arith)
            requires mid < 4294967296;
        if mid * mid <= n {
            lo = mid;
        } else {
            hi = mid;
        }
    }
    lo
}

/// Distance between two in-bounds positions, rounded down to a millimetre.
pub fn distance(a: Vec3, b: Vec3) -> (r: u64)
    requires
        a.in_bounds(),
        b.in_bounds(),
    ensures
        r as int == dist(a, b),
        is_floor_sqrt(r as int, dist_sq(a, b)),
        r < 4 * COORD_LIMIT,
{
    let d2 = distance_squared(a, b);
    let r = isqrt(d2);
    proof {
        lemma_floor_sqrt_unique(r as int, d2 as int);
        lemma_sq_bound(0);
        if r >= 4 * COORD_LIMIT {
            lemma_square_le(4 * COORD_LIMIT, r as int);
            lemma_sq_bound(b.x - a.x);
            lemma_sq_bound(b.y - a.y);
            lemma_sq_bound(b.z - a.z);
        }
    }
    r
}

/// Two different points are at least a millimetre apart.
pub proof fn lemma_distinct_points_apart(a: Vec3, b: Vec3, r: int)
    requires
        a != b,
        is_floor_sqrt(r, dist_sq(a, b)),
    ensures
        r >= 1,
{
    let dx = b.x - a.x;
    let dy = b.y - a.y;
    let dz = b.z - a.z;
    assert(dist_sq(a, b) >= 1) by (nonlinear_arith)
        requires
            dist_sq(a, b) == dx * dx + dy * dy + dz * dz,
            dx != 0 || dy != 0 || dz != 0,
    ;
}

/// One coordinate moved from `p` toward `t` by the fraction `num / den` of the
/// way, rounded toward `p`.
pub open spec fn approach(p: int, t: int, num: int, den: int) -> int {
    if p <= t {
        p + (t - p) * num / den
    } else {
        p - (p - t) * num / den
    }
}

/// A part of a whole, taken by a fraction of at most one, is at most the whole.
proof fn lemma_fraction_le(x: int, num: int, den: int)
    requires
        0 <= x,
        0 <= num <= den,
        0 < den,
    ensures
        0 <= x * num / den <= x,
{
    lemma_mul_inequality(num, den, x);
    assert(x * num <= x * den) by (nonlinear_arith)
        requires num * x <= den * x;
    assert(0 <= x * num) by (nonlinear_arith)
        requires 0 <= x, 0 <= num;
    lemma_div_is_ordered(x * num, x * den, den);
    lemma_div_by_multiple(x, den);
    lemma_div_is_ordered(0, x * num, den);
}

/// The value of `approach` lies between `p` and `t`: it never overshoots.
pub proof fn lemma_approach_between(p: int, t: int, num: int, den: int)
    requires
        0 <= num <= den,
        0 < den,
    ensures
        p <= t ==> p <= approach(p, t, num, den) <= t,
        t < p ==> t <= approach(p, t, num, den) <= p,
{
    if p <= t {
        lemma_fraction_le(t - p, num, den);
    } else {
        lemma_fraction_le(p - t, num, den);
    }
}

fn approach_coord(p: i64, t: i64, num: u64, den: u64) -> (r: i64)
    requires
        coord_ok(p as int),
        coord_ok(t as int),
        num <= den,
        0 < den < 4 * COORD_LIMIT,
    ensures
        r as int == approach(p as int, t as int, num as int, den as int),
        coord_ok(r as int),
{
    let d = abs_diff(p, t);
    proof {
        lemma_approach_between(p as int, t as int, num as int, den as int);
        lemma_mul_inequality(d as int, 2 * COORD_LIMIT, num as int);
        lemma_mul_strict_inequality(num as int, 4 * COORD_LIMIT, 2 * COORD_LIMIT);
        assert(d * num <= num * (2 * COORD_LIMIT)) by (nonlinear_arith)
            requires d * num <= (2 * COORD_LIMIT) * num;
        lemma_fraction_le(d as int, num as int, den as int);
    }
    let step = (d * num / den) as i64;
    if p <= t {
        p + step
    } else {
        p - step
    }
}

/// The point reached from `p` toward `t` after the fraction `num / den` of the
/// way, coordinate by coordinate.
pub open spec fn approach_point(p: Vec3, t: Vec3, num: int, den: int) -> Vec3 {
    Vec3 {
        x: approach(p.x as int, t.x as int, num, den) as i64,
        y: approach(p.y as int, t.y as int, num, den) as i64,
        z: approach(p.z as int, t.z as int, num, den) as i64,
    }
}

/// Moves `p` toward `t` by the fraction `num / den` of the way.
pub fn move_toward(p: Vec3, t: Vec3, num: u64, den: u64) -> (r: Vec3)
    requires
        p.in_bounds(),
        t.in_bounds(),
        num <= den,
        0 < den < 4 * COORD_LIMIT,
    ensures
        r == approach_point(p, t, num as int, den as int),
        r.in_bounds(),
{
    Vec3 {
        x: approach_coord(p.x, t.x, num, den),
        y: approach_coord(p.y, t.y, num, den),
        z: approach_coord(p.z, t.z, num, den),
    }
}

} // verus!
