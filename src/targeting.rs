//! The targeting selector: while aiming, grows an ordered list of targets near
//! the cursor, one geometric query pair per tick.
//!
//! The geometry itself (shape-casts and ray-casts against the physics world)
//! is done by the caller: this module says which queries to make, and decides
//! from their results.

use vstd::prelude::*;
use crate::geometry::{Vec3, dist, distance};

verus! {

/// Most targets one aim can select.
pub const MAX_TARGETS_SELECTABLE: usize = 3;

/// Radius of the sphere cast toward the cursor, in millimetres: a target need
/// not be under the cursor exactly.
pub const AUTOTARGETING_RADIUS: u64 = 2000;

/// How far the line-of-sight ray reaches, in millimetres.
pub const LINE_OF_SIGHT_DISTANCE: u64 = 900000;

/// The targets chosen so far in one aim, in order, and how many it may hold.
pub struct AimModeTargets {
    pub targets: Vec<u64>,
    pub capacity: usize,
}

impl AimModeTargets {
    /// The list never holds more than its capacity.
    pub open spec fn wf(&self) -> bool {
        self.targets@.len() <= self.capacity
    }
}

/// An empty target list for a new aim.
pub fn initialize_target_list(capacity: usize) -> (r: AimModeTargets)
    ensures
        r.targets@.len() == 0,
        r.capacity == capacity,
        r.wf(),
{
    AimModeTargets { targets: Vec::new(), capacity }
}

/// A sphere cast for damageable entities from `origin` toward `toward`.
#[derive(Clone, Copy, Debug, PartialEq, Eq, Structural)]
pub struct ShapeCastQuery {
    pub origin: Vec3,
    /// A point the cast heads for; the direction is from `origin` to it.
    pub toward: Vec3,
    pub radius: u64,
    pub max_distance: u64,
    /// The entity the cast starts from, which it must not find.
    pub excluded: u64,
}

/// The first damageable entity a shape cast found, and where.
#[derive(Clone, Copy, Debug, PartialEq, Eq, Structural)]
pub struct ShapeHit {
    pub entity: u64,
    pub point: Vec3,
}

/// A solid ray cast against everything from `origin` toward `toward`.
#[derive(Clone, Copy, Debug, PartialEq, Eq, Structural)]
pub struct RayCastQuery {
    pub origin: Vec3,
    pub toward: Vec3,
    pub max_distance: u64,
    pub excluded: u64,
}

/// The shape cast of one targeting tick, or `None` where none is to be made:
/// the list is full, or the cursor sits on the origin.
pub open spec fn target_query(
    t: Seq<u64>,
    capacity: int,
    origin_entity: u64,
    origin: Vec3,
    cursor: Vec3,
    radius: u64,
) -> Option<ShapeCastQuery> {
    if t.len() >= capacity || origin == cursor {
        None
    } else {
        Some(ShapeCastQuery {
            origin,
            toward: cursor,
            radius,
            max_distance: (dist(origin, cursor) + radius / 2) as u64,
            excluded: origin_entity,
        })
    }
}

/// Which shape cast to make this tick: from the throw origin toward the
/// cursor, as far as the cursor and half the radius beyond.
pub fn plan_target_query(
    list: &AimModeTargets,
    origin_entity: u64,
    origin: Vec3,
    cursor: Vec3,
    radius: u64,
) -> (r: Option<ShapeCastQuery>)
    requires
        origin.in_bounds(),
        cursor.in_bounds(),
        radius <= u32::MAX,
    ensures
        r == target_query(list.targets@, list.capacity as int, origin_entity, origin, cursor, radius),
{
    if list.targets.len() >= list.capacity || origin == cursor {
        None
    } else {
        let d = distance(origin, cursor);
        Some(ShapeCastQuery {
            origin,
            toward: cursor,
            radius,
            max_distance: d + radius / 2,
            excluded: origin_entity,
        })
    }
}

/// The line-of-sight ray toward a candidate, or `None` where the candidate
/// point is the origin itself.
pub fn line_of_sight_query(origin_entity: u64, origin: Vec3, hit: &ShapeHit) -> (r: Option<RayCastQuery>)
    ensures
        r == (if hit.point == origin {
            None
        } else {
            Some(RayCastQuery {
                origin,
                toward: hit.point,
                max_distance: LINE_OF_SIGHT_DISTANCE,
                excluded: origin_entity,
            })
        }),
{
    if hit.point == origin {
        None
    } else {
        Some(RayCastQuery {
            origin,
            toward: hit.point,
            max_distance: LINE_OF_SIGHT_DISTANCE,
            excluded: origin_entity,
        })
    }
}

/// What one targeting tick decided.
#[derive(Clone, Copy, Debug, PartialEq, Eq, Structural)]
pub enum TargetingOutcome {
    /// The list is full: nothing was queried.
    Full,
    /// No candidate near the cursor.
    NoCandidate,
    /// Something else stands between the origin and the candidate.
    Occluded,
    /// The candidate is already the last target.
    AlreadyTargeted,
    /// The candidate was appended.
    Acquired(u64),
}

/// The decision of one targeting tick on a list `t`, given the shape cast's
/// hit and the first entity the line-of-sight ray met.
pub open spec fn select(
    t: Seq<u64>,
    capacity: int,
    shape_hit: Option<ShapeHit>,
    ray_hit: Option<u64>,
) -> TargetingOutcome {
    if t.len() >= capacity {
        TargetingOutcome::Full
    } else {
        match shape_hit {
            None => TargetingOutcome::NoCandidate,
            Some(h) => if ray_hit != Some(h.entity) {
                TargetingOutcome::Occluded
            } else if t.len() > 0 && t.last() == h.entity {
                TargetingOutcome::AlreadyTargeted
            } else {
                TargetingOutcome::Acquired(h.entity)
            },
        }
    }
}

/// The list after a targeting tick that decided `outcome`.
pub open spec fn selected(t: Seq<u64>, outcome: TargetingOutcome) -> Seq<u64> {
    match outcome {
        TargetingOutcome::Acquired(e) => t.push(e),
        _ => t,
    }
}

/// Decides one targeting tick and applies it: a candidate is appended unless
/// the list is full, there is none, the ray met something else first (or
/// nothing), or it is already the last target.
pub fn record_target_near_mouse(
    list: &mut AimModeTargets,
    shape_hit: Option<ShapeHit>,
    ray_hit: Option<u64>,
) -> (r: TargetingOutcome)
    requires
        old(list).wf(),
    ensures
        final(list).wf(),
        r == select(old(list).targets@, old(list).capacity as int, shape_hit, ray_hit),
        final(list).targets@ == selected(old(list).targets@, r),
        final(list).capacity == old(list).capacity,
{
    if list.targets.len() >= list.capacity {
        return TargetingOutcome::Full;
    }
    let hit = match shape_hit {
        None => {
            return TargetingOutcome::NoCandidate;
        },
        Some(h) => h,
    };
    match ray_hit {
        Some(e) => {
            if e != hit.entity {
                return TargetingOutcome::Occluded;
            }
        },
        None => {
            return TargetingOutcome::Occluded;
        },
    }
    let n = list.targets.len();
    if n > 0 && list.targets[n - 1] == hit.entity {
        return TargetingOutcome::AlreadyTargeted;
    }
    list.targets.push(hit.entity);
    TargetingOutcome::Acquired(hit.entity)
}

/// Hovering: a second targeting tick with the same hits as the one before
/// changes nothing, so a candidate is added at most once however long the
/// cursor rests on it.
pub proof fn lemma_hover_is_idempotent(
    t: Seq<u64>,
    capacity: int,
    shape_hit: Option<ShapeHit>,
    ray_hit: Option<u64>,
)
    ensures
        ({
            let once = selected(t, select(t, capacity, shape_hit, ray_hit));
            selected(once, select(once, capacity, shape_hit, ray_hit)) == once
        }),
{
    let r = select(t, capacity, shape_hit, ray_hit);
    let once = selected(t, r);
    if let TargetingOutcome::Acquired(e) = r {
        assert(once.last() == e);
    }
}

/// Each targeting tick grows the list by at most one entry.
pub proof fn lemma_grows_by_at_most_one(
    t: Seq<u64>,
    capacity: int,
    shape_hit: Option<ShapeHit>,
    ray_hit: Option<u64>,
)
    ensures
        ({
            let next = selected(t, select(t, capacity, shape_hit, ray_hit));
            &&& t.len() <= next.len() <= t.len() + 1
            &&& next.subrange(0, t.len() as int) == t
        }),
{
    let next = selected(t, select(t, capacity, shape_hit, ray_hit));
    assert(next.subrange(0, t.len() as int) =~= t);
}

/// Once the list holds its capacity, a targeting tick makes no query and
/// changes nothing, whatever the cursor and the world hold.
pub proof fn lemma_full_list_is_fixed(
    t: Seq<u64>,
    capacity: int,
    origin_entity: u64,
    origin: Vec3,
    cursor: Vec3,
    radius: u64,
    shape_hit: Option<ShapeHit>,
    ray_hit: Option<u64>,
)
    requires
        t.len() == capacity,
    ensures
        target_query(t, capacity, origin_entity, origin, cursor, radius) is None,
        select(t, capacity, shape_hit, ray_hit) == TargetingOutcome::Full,
        selected(t, select(t, capacity, shape_hit, ray_hit)) == t,
{
}

/// A candidate that the line-of-sight ray does not reach first is never
/// appended.
pub proof fn lemma_occluded_never_added(
    t: Seq<u64>,
    capacity: int,
    hit: ShapeHit,
    ray_hit: Option<u64>,
)
    requires
        ray_hit != Some(hit.entity),
    ensures
        selected(t, select(t, capacity, Some(hit), ray_hit)) == t,
{
}

} // verus!
