//! The aiming preview of a quick throw: a ray from the throw origin toward
//! the cursor shows where the projectile would go, and firing throws it at
//! what the ray found, or at the point where it stopped.

use vstd::prelude::*;
use crate::geometry::{Vec3, COORD_LIMIT, coord_ok, approach, dist, distance};
use crate::boomerang::{BoomerangTargetKind, ThrowBoomerangEvent, at_flying_height};
use crate::settings::BOOMERANG_FLYING_HEIGHT;
use crate::targeting::RayCastQuery;

verus! {

/// Longest reach of the preview ray, in millimetres.
pub const PREVIEW_DISTANCE: u64 = 50000;

/// What a ray cast met first, and how far along the ray.
#[derive(Clone, Copy, Debug, PartialEq, Eq, Structural)]
pub struct RayHit {
    pub entity: u64,
    pub distance: u64,
}

/// Where a quick throw would go: an entity that can redirect the projectile,
/// if the ray met one, and the point where the ray stopped.
#[derive(Clone, Copy, Debug, PartialEq, Eq, Structural)]
pub struct WeaponTarget {
    pub target_entity: Option<u64>,
    pub position: Vec3,
}

/// A coordinate pulled back into the world's bounds.
pub open spec fn clamp_coord(c: int) -> int {
    if c < -COORD_LIMIT {
        -COORD_LIMIT as int
    } else if c > COORD_LIMIT {
        COORD_LIMIT as int
    } else {
        c
    }
}

/// The point `d` millimetres from `o` in the direction of `t` (with the
/// direction's length `len`), kept within bounds.
pub open spec fn along(o: Vec3, t: Vec3, d: int, len: int) -> Vec3 {
    Vec3 {
        x: clamp_coord(approach(o.x as int, t.x as int, d, len)) as i64,
        y: clamp_coord(approach(o.y as int, t.y as int, d, len)) as i64,
        z: clamp_coord(approach(o.z as int, t.z as int, d, len)) as i64,
    }
}

/// The preview ray from the throw origin, at flying height, toward the
/// cursor; `None` where the cursor sits on that origin.
pub fn get_raycast_target(origin_entity: u64, origin: Vec3, cursor: Vec3) -> (r: Option<RayCastQuery>)
    ensures
        r == (if cursor == at_flying_height(origin) {
            None
        } else {
            Some(RayCastQuery {
                origin: at_flying_height(origin),
                toward: cursor,
                max_distance: PREVIEW_DISTANCE,
                excluded: origin_entity,
            })
        }),
{
    let start = origin.with_y(BOOMERANG_FLYING_HEIGHT);
    if cursor == start {
        None
    } else {
        Some(RayCastQuery { origin: start, toward: cursor, max_distance: PREVIEW_DISTANCE, excluded: origin_entity })
    }
}

fn along_coord(p: i64, t: i64, d: u64, len: u64) -> (r: i64)
    requires
        coord_ok(p as int),
        coord_ok(t as int),
        d <= PREVIEW_DISTANCE,
        0 < len,
    ensures
        r as int == clamp_coord(approach(p as int, t as int, d as int, len as int)),
{
    let diff: u64 = if p <= t { (t - p) as u64 } else { (p - t) as u64 };
    assert(diff * d <= 2 * COORD_LIMIT * PREVIEW_DISTANCE) by (nonlinear_arith)
        requires diff <= 2 * COORD_LIMIT, d <= PREVIEW_DISTANCE;
    let step = diff * d / len;
    proof {
        vstd::arithmetic::div_mod::lemma_div_is_ordered_by_denominator((diff * d) as int, 1, len as int);
    }
    let s = step as i64;
    let c: i64 = if p <= t { p + s } else { p - s };
    if c < -COORD_LIMIT {
        -COORD_LIMIT
    } else if c > COORD_LIMIT {
        COORD_LIMIT
    } else {
        c
    }
}

/// The preview after the ray's result: where the ray met something, the
/// point at that distance and, if `redirects` says the entity can take the
/// throw origin, that entity; else the point at the ray's full reach and no
/// entity.
pub fn update_boomerang_preview_position(
    origin: Vec3,
    cursor: Vec3,
    hit: Option<RayHit>,
    redirects: bool,
) -> (r: WeaponTarget)
    requires
        origin.in_bounds(),
        cursor.in_bounds(),
        cursor != at_flying_height(origin),
    ensures
        ({
            let start = at_flying_height(origin);
            let len = dist(start, cursor);
            match hit {
                Some(h) => {
                    let d = if h.distance > PREVIEW_DISTANCE { PREVIEW_DISTANCE } else { h.distance };
                    &&& r.position == along(start, cursor, d as int, len)
                    &&& r.target_entity == (if redirects { Some(h.entity) } else { None })
                },
                None => {
                    &&& r.position == along(start, cursor, PREVIEW_DISTANCE as int, len)
                    &&& r.target_entity is None
                },
            }
        }),
        r.position.in_bounds(),
{
    let start = origin.with_y(BOOMERANG_FLYING_HEIGHT);
    let len = distance(start, cursor);
    proof {
        crate::geometry::lemma_distinct_points_apart(start, cursor, len as int);
    }
    let (entity, d) = match hit {
        Some(h) => (
            if redirects { Some(h.entity) } else { None },
            if h.distance > PREVIEW_DISTANCE { PREVIEW_DISTANCE } else { h.distance },
        ),
        None => (None, PREVIEW_DISTANCE),
    };
    let position = Vec3 {
        x: along_coord(start.x, cursor.x, d, len),
        y: along_coord(start.y, cursor.y, d, len),
        z: along_coord(start.z, cursor.z, d, len),
    };
    WeaponTarget { target_entity: entity, position }
}

/// Firing a quick throw: the thrower throws at the previewed entity, homing,
/// or else at the previewed point.
pub fn on_fire_action_throw_boomerang(thrower: u64, preview: &WeaponTarget) -> (r: ThrowBoomerangEvent)
    ensures
        r.thrower_entity == thrower,
        r.target@ == seq![
            match preview.target_entity {
                Some(e) => BoomerangTargetKind::Entity(e),
                None => BoomerangTargetKind::Position(preview.position),
            },
        ],
{
    let target = match preview.target_entity {
        Some(e) => BoomerangTargetKind::Entity(e),
        None => BoomerangTargetKind::Position(preview.position),
    };
    let mut v: Vec<BoomerangTargetKind> = Vec::new();
    v.push(target);
    ThrowBoomerangEvent { thrower_entity: thrower, target: v }
}

} // verus!
