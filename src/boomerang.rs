//! The flight path engine: each thrown projectile follows a path of waypoints,
//! homing on entities and flying straight to fixed points, bounces at each
//! waypoint, returns to its thrower, then falls and lands.

use vstd::prelude::*;
use vstd::arithmetic::div_mod::{lemma_div_is_ordered, lemma_div_by_multiple};
use crate::geometry::{Vec3, dist, distance, move_toward, approach_point, lemma_approach_between};
use crate::easing::PROGRESS_ONE;
use crate::settings::{BoomerangSettings, SPEED_LIMIT, BOOMERANG_FLYING_HEIGHT, movement_speed_at, rotation_speed_at};
use crate::time_dilation::DELTA_LIMIT;

verus! {

/// One full turn, in milliradians.
pub const FULL_TURN: u64 = 6283;

/// A stop on a projectile's path.
#[derive(Clone, Copy, Debug, PartialEq, Eq, Structural)]
pub enum BoomerangTargetKind {
    /// Homes on an entity, even as it moves: resolved afresh every tick.
    Entity(u64),
    /// Flies in a straight line to a fixed point.
    Position(Vec3),
}

/// Known positions of entities, indexed by entity id; `None` marks one that no
/// longer exists.
pub open spec fn lookup(table: Seq<Option<Vec3>>, id: u64) -> Option<Vec3> {
    if id < table.len() {
        table[id as int]
    } else {
        None
    }
}

/// Every known position is in bounds.
pub open spec fn table_ok(table: Seq<Option<Vec3>>) -> bool {
    forall|i: int| 0 <= i < table.len() && #[trigger] table[i] is Some ==> table[i].unwrap().in_bounds()
}

pub open spec fn at_flying_height(p: Vec3) -> Vec3 {
    Vec3 { x: p.x, y: BOOMERANG_FLYING_HEIGHT, z: p.z }
}

/// Where a waypoint is now, at flying height; `None` for an entity that is gone.
pub open spec fn resolve(kind: BoomerangTargetKind, table: Seq<Option<Vec3>>) -> Option<Vec3> {
    match kind {
        BoomerangTargetKind::Entity(e) => match lookup(table, e) {
            Some(p) => Some(at_flying_height(p)),
            None => None,
        },
        BoomerangTargetKind::Position(p) => Some(at_flying_height(p)),
    }
}

/// A fixed waypoint lies in bounds.
pub open spec fn waypoint_ok(kind: BoomerangTargetKind) -> bool {
    match kind {
        BoomerangTargetKind::Entity(_) => true,
        BoomerangTargetKind::Position(p) => p.in_bounds(),
    }
}

/// Finds where a waypoint is this tick.
pub fn resolve_target(kind: BoomerangTargetKind, positions: &Vec<Option<Vec3>>) -> (r: Option<Vec3>)
    requires
        table_ok(positions@),
        waypoint_ok(kind),
    ensures
        r == resolve(kind, positions@),
        r is Some ==> r.unwrap().in_bounds(),
{
    match kind {
        BoomerangTargetKind::Entity(e) => {
            if e < positions.len() as u64 {
                match positions[e as usize] {
                    Some(p) => Some(p.with_y(BOOMERANG_FLYING_HEIGHT)),
                    None => None,
                }
            } else {
                None
            }
        },
        BoomerangTargetKind::Position(p) => Some(p.with_y(BOOMERANG_FLYING_HEIGHT)),
    }
}

/// The path of a projectile thrown by `thrower` at `targets`: it starts at the
/// thrower, visits the targets in order, and returns to the thrower.
pub open spec fn throw_path(thrower: u64, targets: Seq<BoomerangTargetKind>) -> Seq<BoomerangTargetKind> {
    seq![BoomerangTargetKind::Entity(thrower)] + targets + seq![BoomerangTargetKind::Entity(thrower)]
}

/// The path a projectile follows and how far along it it is.
#[derive(Debug)]
pub struct Boomerang {
    /// Waypoints in order; the first and the last are the thrower.
    pub path: Vec<BoomerangTargetKind>,
    /// Index of the waypoint the current segment starts from.
    pub path_index: usize,
    /// Progress along the current segment, in basis points.
    pub progress_on_current_segment: u64,
}

impl Boomerang {
    /// At least two waypoints, fixed ones in bounds; the segment index stays on
    /// the path; progress is a fraction of at most one.
    pub open spec fn wf(&self) -> bool {
        &&& self.path.len() >= 2
        &&& self.path_index < self.path.len()
        &&& self.progress_on_current_segment <= PROGRESS_ONE
        &&& forall|i: int| 0 <= i < self.path.len() ==> waypoint_ok(#[trigger] self.path@[i])
    }

    /// A projectile at the start of `path`.
    pub fn new(path: Vec<BoomerangTargetKind>) -> (r: Boomerang)
        requires
            path.len() >= 2,
            forall|i: int| 0 <= i < path.len() ==> waypoint_ok(#[trigger] path@[i]),
        ensures
            r.path@ == path@,
            r.path_index == 0,
            r.progress_on_current_segment == 0,
            r.wf(),
    {
        Boomerang { path, path_index: 0, progress_on_current_segment: 0 }
    }

    /// The path index is on the last segment, the one that returns home.
    pub fn is_last_segment(&self) -> (r: bool)
        requires
            self.wf(),
        ensures
            r == (self.path_index >= self.path.len() - 2),
    {
        self.path_index >= self.path.len() - 2
    }
}

/// Builds the path of a throw: the thrower, the targets in order, the thrower.
pub fn throw_path_of(thrower: u64, targets: &Vec<BoomerangTargetKind>) -> (r: Vec<BoomerangTargetKind>)
    requires
        targets.len() < usize::MAX - 2,
    ensures
        r@ == throw_path(thrower, targets@),
{
    let mut path: Vec<BoomerangTargetKind> = Vec::new();
    path.push(BoomerangTargetKind::Entity(thrower));
    let mut i: usize = 0;
    while i < targets.len()
        invariant
            i <= targets.len(),
            path@ == seq![BoomerangTargetKind::Entity(thrower)] + targets@.subrange(0, i as int),
        decreases targets.len() - i,
    {
        path.push(targets[i]);
        i = i + 1;
        assert(targets@.subrange(0, i as int) == targets@.subrange(0, i - 1 as int).push(targets@[i - 1]));
    }
    path.push(BoomerangTargetKind::Entity(thrower));
    assert(targets@.subrange(0, i as int) == targets@);
    path
}

/// Whether a projectile is in the air on its path, or falling after its return.
#[derive(Clone, Copy, Debug, PartialEq, Eq, Structural)]
pub enum FlightState {
    Flying,
    Falling,
}

/// A thrown projectile: its path, its body and its spin.
#[derive(Debug)]
pub struct Projectile {
    /// The projectile's own entity id.
    pub entity: u64,
    pub boomerang: Boomerang,
    pub position: Vec3,
    /// Rotation about the vertical axis, in milliradians below `FULL_TURN`.
    pub heading: u64,
    /// Spin speed, in milliradians per second.
    pub angular_speed: u64,
    pub state: FlightState,
    /// Damage dealt on contact.
    pub damage: u32,
}

impl Projectile {
    /// While flying, the segment ends at a waypoint of the path and the body
    /// is at flying height; once falling, the path is done and the body is not
    /// below the ground.
    pub open spec fn wf(&self) -> bool {
        &&& self.boomerang.wf()
        &&& self.position.in_bounds()
        &&& self.heading < FULL_TURN
        &&& self.angular_speed <= 3 * SPEED_LIMIT
        &&& match self.state {
            FlightState::Flying => {
                &&& self.boomerang.path_index < self.boomerang.path.len() - 1
                &&& self.position.y == BOOMERANG_FLYING_HEIGHT
            },
            FlightState::Falling => {
                &&& self.boomerang.path_index == self.boomerang.path.len() - 1
                &&& self.position.y >= 0
            },
        }
    }
}

/// A request to throw a projectile from `thrower_entity` along `target`.
#[derive(Debug)]
pub struct ThrowBoomerangEvent {
    pub thrower_entity: u64,
    pub target: Vec<BoomerangTargetKind>,
}

/// `p` is the projectile that a throw by `thrower` at `targets` spawns as
/// entity `entity`: at the start of the throw's path, flying, unspun, at the
/// thrower's position at flying height.
pub open spec fn is_spawn_of(
    p: Projectile,
    thrower: u64,
    targets: Seq<BoomerangTargetKind>,
    entity: u64,
    damage: u32,
    table: Seq<Option<Vec3>>,
) -> bool {
    &&& p.entity == entity
    &&& p.boomerang.path@ == throw_path(thrower, targets)
    &&& p.boomerang.path_index == 0
    &&& p.boomerang.progress_on_current_segment == 0
    &&& p.position == at_flying_height(lookup(table, thrower).unwrap())
    &&& p.heading == 0
    &&& p.angular_speed == 0
    &&& p.state == FlightState::Flying
    &&& p.damage == damage
}

/// Spawns the projectile of a throw at the thrower's position, at flying
/// height; `None` where the thrower no longer exists.
pub fn on_throw_boomerang_spawn_boomerang(
    event: &ThrowBoomerangEvent,
    entity: u64,
    damage: u32,
    positions: &Vec<Option<Vec3>>,
) -> (r: Option<Projectile>)
    requires
        table_ok(positions@),
        event.target.len() < usize::MAX - 2,
        forall|i: int| 0 <= i < event.target.len() ==> waypoint_ok(#[trigger] event.target@[i]),
    ensures
        r is Some <==> lookup(positions@, event.thrower_entity) is Some,
        r matches Some(p) ==> p.wf() && is_spawn_of(p, event.thrower_entity, event.target@, entity, damage, positions@),
{
    let start = resolve_target(BoomerangTargetKind::Entity(event.thrower_entity), positions);
    match start {
        None => None,
        Some(position) => {
            let path = throw_path_of(event.thrower_entity, &event.target);
            assert(forall|i: int| 0 <= i < path.len() ==> waypoint_ok(#[trigger] path@[i])) by {
                assert forall|i: int| 0 <= i < path.len() implies waypoint_ok(#[trigger] path@[i]) by {
                    if 1 <= i < path.len() - 1 {
                        assert(path@[i] == event.target@[i - 1]);
                    }
                }
            }
            Some(Projectile {
                entity,
                boomerang: Boomerang::new(path),
                position,
                heading: 0,
                angular_speed: 0,
                state: FlightState::Flying,
                damage,
            })
        },
    }
}

/// Progress along a segment of length `total` with `remaining` still to go, in
/// basis points: one minus their ratio, never below zero.
pub open spec fn segment_progress(remaining: int, total: int) -> int {
    if remaining >= total {
        0
    } else {
        PROGRESS_ONE - remaining * PROGRESS_ONE / total
    }
}

/// Distance covered at `speed` per second in `dt` milliseconds, rounded down.
pub open spec fn travel(speed: int, dt: int) -> int {
    speed * dt / 1000
}

/// Each coordinate of `q` lies between those of `p` and `t`.
pub open spec fn between(p: Vec3, q: Vec3, t: Vec3) -> bool {
    &&& (p.x <= q.x <= t.x || t.x <= q.x <= p.x)
    &&& (p.y <= q.y <= t.y || t.y <= q.y <= p.y)
    &&& (p.z <= q.z <= t.z || t.z <= q.z <= p.z)
}

/// A projectile has reached a waypoint of its path.
#[derive(Clone, Copy, Debug, PartialEq, Eq, Structural)]
pub struct BounceBoomerangEvent {
    /// The projectile.
    pub boomerang_entity: u64,
    /// The waypoint it reached.
    pub bounce_on: BoomerangTargetKind,
}

/// What one tick of flight did to a projectile.
#[derive(Clone, Copy, Debug, PartialEq, Eq, Structural)]
pub enum FlightStep {
    /// It moved toward its next waypoint.
    Moved,
    /// It reached its next waypoint and was placed exactly on it.
    Bounced(BounceBoomerangEvent),
    /// A waypoint of its segment refers to an entity that is gone: it waits.
    Stalled,
}

proof fn lemma_progress_bounds(remaining: int, total: int)
    requires
        0 <= remaining,
    ensures
        0 <= segment_progress(remaining, total) <= PROGRESS_ONE,
{
    if remaining < total {
        assert(remaining * PROGRESS_ONE <= total * PROGRESS_ONE) by (nonlinear_arith)
            requires remaining < total;
        assert(0 <= remaining * PROGRESS_ONE) by (nonlinear_arith)
            requires 0 <= remaining;
        lemma_div_is_ordered(remaining * PROGRESS_ONE, total * PROGRESS_ONE, total);
        lemma_div_by_multiple(PROGRESS_ONE as int, total);
        assert(total * PROGRESS_ONE == PROGRESS_ONE * total) by (nonlinear_arith);
        lemma_div_is_ordered(0, remaining * PROGRESS_ONE, total);
    }
}

/// What one tick of flight gives: the step, the new position and the new
/// progress along the segment.
///
/// Both ends of the segment are resolved first: the waypoint at `path_index`
/// and the one after it, the target. Where either refers to a vanished entity
/// the projectile stalls. Where it already sits on the target, or would reach
/// it within the tick's travel, it is placed on it and bounces. Otherwise it
/// advances by the speed that the easing curve gives at its progress along
/// the segment.
pub open spec fn flight_outcome(
    o: Projectile,
    table: Seq<Option<Vec3>>,
    settings: BoomerangSettings,
    dt: int,
) -> (FlightStep, Vec3, int) {
    let idx = o.boomerang.path_index as int;
    let next = o.boomerang.path@[idx + 1];
    let progress_before = o.boomerang.progress_on_current_segment as int;
    let bounce = FlightStep::Bounced(
        BounceBoomerangEvent { boomerang_entity: o.entity, bounce_on: next },
    );
    match (resolve(next, table), resolve(o.boomerang.path@[idx], table)) {
        (Some(t), Some(s)) => if t == o.position {
            (bounce, t, progress_before)
        } else {
            let remaining = dist(o.position, t);
            let progress = segment_progress(remaining, dist(s, t));
            let step = travel(movement_speed_at(settings, progress), dt);
            if remaining <= step {
                (bounce, t, progress)
            } else {
                (FlightStep::Moved, approach_point(o.position, t, step, remaining), progress)
            }
        },
        _ => (FlightStep::Stalled, o.position, progress_before),
    }
}

/// `o` after one tick of flight: only the position and the progress change,
/// as `flight_outcome` gives them.
pub open spec fn flown(o: Projectile, table: Seq<Option<Vec3>>, settings: BoomerangSettings, dt: int) -> Projectile {
    let out = flight_outcome(o, table, settings, dt);
    Projectile {
        position: out.1,
        boomerang: Boomerang { progress_on_current_segment: out.2 as u64, ..o.boomerang },
        ..o
    }
}

/// Moves a flying projectile one tick toward its next waypoint, as
/// `flight_outcome` says. A projectile that moves stays between where it was
/// and its target; one that bounces sits exactly on the waypoint reached.
pub fn move_flying_boomerang(
    p: &mut Projectile,
    positions: &Vec<Option<Vec3>>,
    settings: &BoomerangSettings,
    dt: u64,
) -> (r: FlightStep)
    requires
        old(p).wf(),
        old(p).state == FlightState::Flying,
        table_ok(positions@),
        settings.wf(),
        dt <= DELTA_LIMIT,
    ensures
        final(p).wf(),
        *final(p) == flown(*old(p), positions@, *settings, dt as int),
        r == flight_outcome(*old(p), positions@, *settings, dt as int).0,
        r is Moved ==> between(old(p).position, final(p).position,
            resolve(old(p).boomerang.path@[old(p).boomerang.path_index + 1], positions@).unwrap()),
        r matches FlightStep::Bounced(e) ==> Some(final(p).position) == resolve(e.bounce_on, positions@),
{
    let idx = p.boomerang.path_index;
    let next = p.boomerang.path[idx + 1];
    let target = match resolve_target(next, positions) {
        Some(t) => t,
        None => {
            return FlightStep::Stalled;
        },
    };
    let origin = match resolve_target(p.boomerang.path[idx], positions) {
        Some(s) => s,
        None => {
            return FlightStep::Stalled;
        },
    };
    let bounce = FlightStep::Bounced(BounceBoomerangEvent { boomerang_entity: p.entity, bounce_on: next });
    if target == p.position {
        p.position = target;
        return bounce;
    }
    let remaining = distance(p.position, target);
    let total = distance(origin, target);
    proof {
        crate::geometry::lemma_distinct_points_apart(p.position, target, remaining as int);
        lemma_progress_bounds(remaining as int, total as int);
    }
    let progress = if remaining >= total {
        0
    } else {
        PROGRESS_ONE - remaining * PROGRESS_ONE / total
    };
    p.boomerang.progress_on_current_segment = progress;
    let speed = settings.tween_movement_speed(progress);
    assert(speed * dt <= 3 * SPEED_LIMIT * DELTA_LIMIT) by (nonlinear_arith)
        requires speed <= 3 * SPEED_LIMIT, dt <= DELTA_LIMIT;
    let step = speed * dt / 1000;
    if remaining <= step {
        p.position = target;
        bounce
    } else {
        let old_position = p.position;
        let moved = move_toward(old_position, target, step, remaining);
        proof {
            lemma_approach_between(old_position.x as int, target.x as int, step as int, remaining as int);
            lemma_approach_between(old_position.y as int, target.y as int, step as int, remaining as int);
            lemma_approach_between(old_position.z as int, target.z as int, step as int, remaining as int);
        }
        p.position = moved;
        FlightStep::Moved
    }
}

/// `o` after one tick of spin: the spin speed follows the easing curve at the
/// cached progress, and the heading turns by it.
pub open spec fn spun(o: Projectile, settings: BoomerangSettings, dt: int) -> Projectile {
    let spin = rotation_speed_at(settings, o.boomerang.progress_on_current_segment as int);
    Projectile {
        angular_speed: spin as u64,
        heading: ((o.heading + travel(spin, dt)) % (FULL_TURN as int)) as u64,
        ..o
    }
}

/// Spins a flying projectile for one tick.
pub fn rotate_boomerang(p: &mut Projectile, settings: &BoomerangSettings, dt: u64)
    requires
        old(p).wf(),
        old(p).state == FlightState::Flying,
        settings.wf(),
        dt <= DELTA_LIMIT,
    ensures
        final(p).wf(),
        *final(p) == spun(*old(p), *settings, dt as int),
{
    let spin = settings.tween_rotation_speed(p.boomerang.progress_on_current_segment);
    assert(spin * dt <= 3 * SPEED_LIMIT * DELTA_LIMIT) by (nonlinear_arith)
        requires spin <= 3 * SPEED_LIMIT, dt <= DELTA_LIMIT;
    let turn = spin * dt / 1000;
    p.angular_speed = spin;
    p.heading = (p.heading + turn) % FULL_TURN;
}

/// `o` after consuming a bounce: on to the next segment, falling once the
/// returning waypoint is reached.
pub open spec fn advanced(o: Projectile) -> Projectile {
    let index = o.boomerang.path_index + 1;
    Projectile {
        boomerang: Boomerang { path_index: index as usize, ..o.boomerang },
        state: if index >= o.boomerang.path.len() - 1 {
            FlightState::Falling
        } else {
            FlightState::Flying
        },
        ..o
    }
}

/// Consumes a bounce: the projectile moves on to the next segment, or, having
/// reached the returning waypoint, starts falling.
pub fn on_boomerang_bounce_advance_to_next_pathing_step_or_fall_down(p: &mut Projectile)
    requires
        old(p).wf(),
        old(p).state == FlightState::Flying,
    ensures
        final(p).wf(),
        *final(p) == advanced(*old(p)),
{
    p.boomerang.path_index = p.boomerang.path_index + 1;
    if p.boomerang.path_index >= p.boomerang.path.len() - 1 {
        p.state = FlightState::Falling;
    }
}

/// Height of a falling projectile after `drop` more millimetres, clamped at
/// the ground.
pub open spec fn fall_height(y: int, drop: int) -> int {
    if y - drop <= 0 {
        0
    } else {
        y - drop
    }
}

/// `o` after one tick of falling: it drops at the falling speed, and stops on
/// the ground.
pub open spec fn fallen(o: Projectile, settings: BoomerangSettings, dt: int) -> Projectile {
    let y = fall_height(o.position.y as int, travel(settings.falling_speed as int, dt));
    Projectile { position: Vec3 { y: y as i64, ..o.position }, ..o }
}

/// Lets a falling projectile drop for one tick. Returns whether it reached the
/// ground, where it stays.
pub fn move_falling_boomerang(p: &mut Projectile, settings: &BoomerangSettings, dt: u64) -> (landed: bool)
    requires
        old(p).wf(),
        old(p).state == FlightState::Falling,
        settings.wf(),
        dt <= DELTA_LIMIT,
    ensures
        final(p).wf(),
        *final(p) == fallen(*old(p), *settings, dt as int),
        landed == (final(p).position.y == 0),
{
    assert(settings.falling_speed * dt <= SPEED_LIMIT * DELTA_LIMIT) by (nonlinear_arith)
        requires settings.falling_speed <= SPEED_LIMIT, dt <= DELTA_LIMIT;
    let drop = (settings.falling_speed * dt / 1000) as i64;
    let y = if p.position.y <= drop {
        0
    } else {
        p.position.y - drop
    };
    p.position = p.position.with_y(y);
    y == 0
}

} // verus!
