//! All thrown projectiles, advanced one tick at a time in fixed phases:
//! falling, despawn of the landed ones, flight, spin, bounce consumption.
//! Each phase that consumes notifications runs after the phase that raises
//! them, in the same tick, so no reaction is ever a tick late.

use vstd::prelude::*;
use crate::geometry::Vec3;
use crate::settings::BoomerangSettings;
use crate::time_dilation::{DELTA_LIMIT, DilatedTime};
use crate::easing::PROGRESS_ONE;
use crate::boomerang::{
    Projectile, FlightState, FlightStep, BounceBoomerangEvent, ThrowBoomerangEvent, table_ok,
    lookup, flight_outcome, flown, spun, advanced, fallen, is_spawn_of, waypoint_ok, travel,
    fall_height, move_flying_boomerang, rotate_boomerang, move_falling_boomerang,
    on_boomerang_bounce_advance_to_next_pathing_step_or_fall_down,
    on_throw_boomerang_spawn_boomerang,
};

verus! {

/// Every projectile in a slot is well formed.
pub open spec fn slots_wf(slots: Seq<Option<Projectile>>) -> bool {
    forall|i: int| 0 <= i < slots.len() && #[trigger] slots[i] is Some ==> slots[i].unwrap().wf()
}

/// `n` is the projectile `o`, later: the same entity on the same path, never
/// back at an earlier waypoint, and never flying again once falling.
pub open spec fn continues(o: Projectile, n: Projectile) -> bool {
    &&& n.entity == o.entity
    &&& n.boomerang.path@ == o.boomerang.path@
    &&& o.boomerang.path_index <= n.boomerang.path_index
    &&& (o.state == FlightState::Falling ==> n.state == FlightState::Falling)
}

/// Each projectile of `n` continues the one in the same slot of `o`.
pub open spec fn slots_continue(o: Seq<Option<Projectile>>, n: Seq<Option<Projectile>>) -> bool {
    &&& n.len() == o.len()
    &&& forall|i: int|
        0 <= i < n.len() && #[trigger] n[i] is Some ==> o[i] is Some && continues(
            o[i].unwrap(),
            n[i].unwrap(),
        )
}

pub open spec fn is_flying(slot: Option<Projectile>) -> bool {
    slot matches Some(p) && p.state == FlightState::Flying
}

pub open spec fn is_falling(slot: Option<Projectile>) -> bool {
    slot matches Some(p) && p.state == FlightState::Falling
}

/// The slot holds the flying projectile `e`.
pub open spec fn flying_entity(slot: Option<Projectile>, e: u64) -> bool {
    is_flying(slot) && slot.unwrap().entity == e
}

/// The bounce that one tick of flight raises for a slot, if any.
pub open spec fn bounce_of(
    slot: Option<Projectile>,
    table: Seq<Option<Vec3>>,
    settings: BoomerangSettings,
    dt: int,
) -> Option<BounceBoomerangEvent> {
    if is_flying(slot) {
        match flight_outcome(slot.unwrap(), table, settings, dt).0 {
            FlightStep::Bounced(e) => Some(e),
            _ => None,
        }
    } else {
        None
    }
}

/// The bounces that one tick of flight raises, in slot order.
pub open spec fn bounce_events(
    slots: Seq<Option<Projectile>>,
    table: Seq<Option<Vec3>>,
    settings: BoomerangSettings,
    dt: int,
) -> Seq<BounceBoomerangEvent>
    decreases slots.len(),
{
    if slots.len() == 0 {
        seq![]
    } else {
        let before = bounce_events(slots.drop_last(), table, settings, dt);
        match bounce_of(slots.last(), table, settings, dt) {
            Some(e) => before.push(e),
            None => before,
        }
    }
}

/// The flying projectiles that one tick of flight stalls, because a waypoint
/// of their segment refers to a vanished entity, in slot order.
pub open spec fn stalls(
    slots: Seq<Option<Projectile>>,
    table: Seq<Option<Vec3>>,
    settings: BoomerangSettings,
    dt: int,
) -> Seq<u64>
    decreases slots.len(),
{
    if slots.len() == 0 {
        seq![]
    } else {
        let before = stalls(slots.drop_last(), table, settings, dt);
        let s = slots.last();
        if is_flying(s) && flight_outcome(s.unwrap(), table, settings, dt).0 is Stalled {
            before.push(s.unwrap().entity)
        } else {
            before
        }
    }
}

/// A slot after one tick of flight: a flying projectile moves, others stay.
pub open spec fn fly_slot(
    slot: Option<Projectile>,
    table: Seq<Option<Vec3>>,
    settings: BoomerangSettings,
    dt: int,
) -> Option<Projectile> {
    if is_flying(slot) {
        Some(flown(slot.unwrap(), table, settings, dt))
    } else {
        slot
    }
}

pub open spec fn fly_all(
    slots: Seq<Option<Projectile>>,
    table: Seq<Option<Vec3>>,
    settings: BoomerangSettings,
    dt: int,
) -> Seq<Option<Projectile>> {
    slots.map_values(|s: Option<Projectile>| fly_slot(s, table, settings, dt))
}

/// A slot after one tick of spin: a flying projectile turns, others stay.
pub open spec fn spin_slot(slot: Option<Projectile>, settings: BoomerangSettings, dt: int) -> Option<Projectile> {
    if is_flying(slot) {
        Some(spun(slot.unwrap(), settings, dt))
    } else {
        slot
    }
}

pub open spec fn spin_all(slots: Seq<Option<Projectile>>, settings: BoomerangSettings, dt: int) -> Seq<Option<Projectile>> {
    slots.map_values(|s: Option<Projectile>| spin_slot(s, settings, dt))
}

/// A slot after one tick of falling: a falling projectile drops, others stay.
pub open spec fn fall_slot(slot: Option<Projectile>, settings: BoomerangSettings, dt: int) -> Option<Projectile> {
    if is_falling(slot) {
        Some(fallen(slot.unwrap(), settings, dt))
    } else {
        slot
    }
}

pub open spec fn fall_all(slots: Seq<Option<Projectile>>, settings: BoomerangSettings, dt: int) -> Seq<Option<Projectile>> {
    slots.map_values(|s: Option<Projectile>| fall_slot(s, settings, dt))
}

/// The entity that a slot lands this tick while falling, if any.
pub open spec fn landing_of(slot: Option<Projectile>, settings: BoomerangSettings, dt: int) -> Option<u64> {
    if is_falling(slot) && fall_height(
        slot.unwrap().position.y as int,
        travel(settings.falling_speed as int, dt),
    ) == 0 {
        Some(slot.unwrap().entity)
    } else {
        None
    }
}

/// The projectiles that land this tick, in slot order.
pub open spec fn landings(slots: Seq<Option<Projectile>>, settings: BoomerangSettings, dt: int) -> Seq<u64>
    decreases slots.len(),
{
    if slots.len() == 0 {
        seq![]
    } else {
        let before = landings(slots.drop_last(), settings, dt);
        match landing_of(slots.last(), settings, dt) {
            Some(e) => before.push(e),
            None => before,
        }
    }
}

/// A slot after the landed are despawned: a falling projectile among them
/// leaves its slot empty.
pub open spec fn despawn_slot(slot: Option<Projectile>, landed: Seq<u64>) -> Option<Projectile> {
    if is_falling(slot) && landed.contains(slot.unwrap().entity) {
        None
    } else {
        slot
    }
}

pub open spec fn despawn_all(slots: Seq<Option<Projectile>>, landed: Seq<u64>) -> Seq<Option<Projectile>> {
    slots.map_values(|s: Option<Projectile>| despawn_slot(s, landed))
}

/// The first slot that holds the flying projectile `e`, if any.
pub open spec fn first_flying(slots: Seq<Option<Projectile>>, e: u64) -> Option<int>
    decreases slots.len(),
{
    if slots.len() == 0 {
        None
    } else {
        match first_flying(slots.drop_last(), e) {
            Some(i) => Some(i),
            None => if flying_entity(slots.last(), e) {
                Some(slots.len() - 1)
            } else {
                None
            },
        }
    }
}

/// The slots after consuming one bounce: the first flying projectile of the
/// event's entity moves on, as `advanced` says; with none, nothing changes.
pub open spec fn bounce_applied(slots: Seq<Option<Projectile>>, e: BounceBoomerangEvent) -> Seq<Option<Projectile>> {
    match first_flying(slots, e.boomerang_entity) {
        Some(i) => slots.update(i, Some(advanced(slots[i].unwrap()))),
        None => slots,
    }
}

/// The slots after consuming the bounces in order.
pub open spec fn bounces_applied(slots: Seq<Option<Projectile>>, evs: Seq<BounceBoomerangEvent>) -> Seq<Option<Projectile>>
    decreases evs.len(),
{
    if evs.len() == 0 {
        slots
    } else {
        bounce_applied(bounces_applied(slots, evs.drop_last()), evs.last())
    }
}

/// The bounces, in order, that found no flying projectile of their entity
/// when their turn came: defects, consumed without effect.
pub open spec fn unmatched_bounces(slots: Seq<Option<Projectile>>, evs: Seq<BounceBoomerangEvent>) -> Seq<BounceBoomerangEvent>
    decreases evs.len(),
{
    if evs.len() == 0 {
        seq![]
    } else {
        let before = unmatched_bounces(slots, evs.drop_last());
        if first_flying(bounces_applied(slots, evs.drop_last()), evs.last().boomerang_entity) is None {
            before.push(evs.last())
        } else {
            before
        }
    }
}

/// The slots after one whole tick: falling, despawn of the landed, flight,
/// spin, then the bounces of the flight consumed in order.
pub open spec fn tick_slots(
    slots: Seq<Option<Projectile>>,
    table: Seq<Option<Vec3>>,
    settings: BoomerangSettings,
    dt: int,
) -> Seq<Option<Projectile>> {
    let settled = despawn_all(fall_all(slots, settings, dt), landings(slots, settings, dt));
    let moved = spin_all(fly_all(settled, table, settings, dt), settings, dt);
    bounces_applied(moved, bounce_events(settled, table, settings, dt))
}

proof fn lemma_first_flying_none(slots: Seq<Option<Projectile>>, e: u64)
    requires
        forall|j: int| 0 <= j < slots.len() ==> !flying_entity(#[trigger] slots[j], e),
    ensures
        first_flying(slots, e) is None,
    decreases slots.len(),
{
    if slots.len() > 0 {
        lemma_first_flying_none(slots.drop_last(), e);
        assert(!flying_entity(slots[slots.len() - 1], e));
    }
}

proof fn lemma_first_flying_is(slots: Seq<Option<Projectile>>, e: u64, i: int)
    requires
        0 <= i < slots.len(),
        flying_entity(slots[i], e),
        forall|j: int| 0 <= j < i ==> !flying_entity(#[trigger] slots[j], e),
    ensures
        first_flying(slots, e) == Some(i),
    decreases slots.len(),
{
    let d = slots.drop_last();
    if i == slots.len() - 1 {
        assert forall|j: int| 0 <= j < d.len() implies !flying_entity(#[trigger] d[j], e) by {
            assert(d[j] == slots[j]);
        }
        lemma_first_flying_none(d, e);
    } else {
        assert forall|j: int| 0 <= j < i implies !flying_entity(#[trigger] d[j], e) by {
            assert(d[j] == slots[j]);
        }
        lemma_first_flying_is(d, e, i);
    }
}

proof fn lemma_continue_trans(a: Seq<Option<Projectile>>, b: Seq<Option<Projectile>>, c: Seq<Option<Projectile>>)
    requires
        slots_continue(a, b),
        slots_continue(b, c),
    ensures
        slots_continue(a, c),
{
    assert forall|i: int| 0 <= i < c.len() && #[trigger] c[i] is Some implies a[i] is Some && continues(
        a[i].unwrap(),
        c[i].unwrap(),
    ) by {
        assert(b[i] is Some);
    }
}

/// Where two slot sequences agree on every slot that is flying in either,
/// one tick of flight raises the same bounces and stalls the same projectiles.
proof fn lemma_flight_events_agree(
    a: Seq<Option<Projectile>>,
    b: Seq<Option<Projectile>>,
    table: Seq<Option<Vec3>>,
    settings: BoomerangSettings,
    dt: int,
)
    requires
        a.len() == b.len(),
        forall|i: int| 0 <= i < a.len() && (is_flying(#[trigger] a[i]) || is_flying(b[i])) ==> a[i] == b[i],
    ensures
        bounce_events(a, table, settings, dt) == bounce_events(b, table, settings, dt),
        stalls(a, table, settings, dt) == stalls(b, table, settings, dt),
    decreases a.len(),
{
    if a.len() > 0 {
        lemma_flight_events_agree(a.drop_last(), b.drop_last(), table, settings, dt);
        let i = a.len() - 1;
        if is_flying(a[i]) || is_flying(b[i]) {
            assert(a[i] == b[i]);
        }
    }
}

/// Swaps `x` into slot `i` and hands back what was there.
fn replace_slot(slots: &mut Vec<Option<Projectile>>, i: usize, x: Option<Projectile>) -> (r: Option<Projectile>)
    requires
        i < old(slots).len(),
    ensures
        r == old(slots)@[i as int],
        final(slots)@ == old(slots)@.update(i as int, x),
{
    let r = slots.remove(i);
    slots.insert(i, x);
    assert(slots@ =~= old(slots)@.update(i as int, x));
    r
}

/// The projectiles of the game, one per slot; a slot empties when its
/// projectile lands and is never reused.
pub struct Boomerangs {
    pub slots: Vec<Option<Projectile>>,
}

/// What one tick of the flight engine reports.
pub struct FlightEvents {
    /// Waypoints reached, in slot order.
    pub bounces: Vec<BounceBoomerangEvent>,
    /// Projectiles that reached the ground and were despawned.
    pub landed: Vec<u64>,
    /// Projectiles that could not advance because a waypoint of their segment
    /// refers to a vanished entity.
    pub stalled: Vec<u64>,
    /// Bounces that found no flying projectile of their entity.
    pub unmatched: Vec<BounceBoomerangEvent>,
}

impl Boomerangs {
    pub open spec fn wf(&self) -> bool {
        slots_wf(self.slots@)
    }

    /// No projectiles.
    pub fn new() -> (r: Boomerangs)
        ensures
            r.slots@.len() == 0,
            r.wf(),
    {
        Boomerangs { slots: Vec::new() }
    }

    /// Spawns the projectile of a throw in a new slot; nothing where the
    /// thrower no longer exists. Returns whether it was spawned.
    pub fn spawn(
        &mut self,
        event: &ThrowBoomerangEvent,
        entity: u64,
        damage: u32,
        positions: &Vec<Option<Vec3>>,
    ) -> (spawned: bool)
        requires
            old(self).wf(),
            table_ok(positions@),
            event.target.len() < usize::MAX - 2,
            forall|i: int| 0 <= i < event.target.len() ==> waypoint_ok(#[trigger] event.target@[i]),
        ensures
            final(self).wf(),
            spawned == (lookup(positions@, event.thrower_entity) is Some),
            !spawned ==> final(self).slots@ == old(self).slots@,
            spawned ==> {
                &&& final(self).slots@.len() == old(self).slots@.len() + 1
                &&& final(self).slots@.drop_last() == old(self).slots@
                &&& final(self).slots@.last() matches Some(p) && is_spawn_of(
                    p,
                    event.thrower_entity,
                    event.target@,
                    entity,
                    damage,
                    positions@,
                )
            },
    {
        match on_throw_boomerang_spawn_boomerang(event, entity, damage, positions) {
            Some(p) => {
                self.slots.push(Some(p));
                assert(self.slots@.drop_last() =~= old(self).slots@);
                true
            },
            None => false,
        }
    }

    /// Flight phase: moves every flying projectile one tick. Reports the
    /// bounces and the stalled projectiles, in slot order.
    pub fn move_flying_boomerangs(
        &mut self,
        positions: &Vec<Option<Vec3>>,
        settings: &BoomerangSettings,
        dt: u64,
    ) -> (r: (Vec<BounceBoomerangEvent>, Vec<u64>))
        requires
            old(self).wf(),
            table_ok(positions@),
            settings.wf(),
            dt <= DELTA_LIMIT,
        ensures
            final(self).wf(),
            final(self).slots@ == fly_all(old(self).slots@, positions@, *settings, dt as int),
            r.0@ == bounce_events(old(self).slots@, positions@, *settings, dt as int),
            r.1@ == stalls(old(self).slots@, positions@, *settings, dt as int),
    {
        let mut events: Vec<BounceBoomerangEvent> = Vec::new();
        let mut stalled: Vec<u64> = Vec::new();
        let n = self.slots.len();
        let mut i: usize = 0;
        while i < n
            invariant
                n == old(self).slots@.len(),
                self.slots@.len() == n,
                i <= n,
                slots_wf(self.slots@),
                forall|j: int| 0 <= j < i ==> #[trigger] self.slots@[j] == fly_slot(
                    old(self).slots@[j],
                    positions@,
                    *settings,
                    dt as int,
                ),
                forall|j: int| i <= j < n ==> #[trigger] self.slots@[j] == old(self).slots@[j],
                events@ == bounce_events(old(self).slots@.subrange(0, i as int), positions@, *settings, dt as int),
                stalled@ == stalls(old(self).slots@.subrange(0, i as int), positions@, *settings, dt as int),
                table_ok(positions@),
                settings.wf(),
                dt <= DELTA_LIMIT,
            decreases n - i,
        {
            let slot = replace_slot(&mut self.slots, i, None);
            match slot {
                Some(mut p) => {
                    if p.state == FlightState::Flying {
                        let step = move_flying_boomerang(&mut p, positions, settings, dt);
                        match step {
                            FlightStep::Bounced(e) => {
                                events.push(e);
                            },
                            FlightStep::Stalled => {
                                stalled.push(p.entity);
                            },
                            FlightStep::Moved => {},
                        }
                    }
                    replace_slot(&mut self.slots, i, Some(p));
                },
                None => {
                    replace_slot(&mut self.slots, i, None);
                },
            }
            assert(old(self).slots@.subrange(0, i + 1).drop_last() =~= old(self).slots@.subrange(0, i as int));
            i = i + 1;
        }
        assert(old(self).slots@.subrange(0, n as int) =~= old(self).slots@);
        assert(self.slots@ =~= fly_all(old(self).slots@, positions@, *settings, dt as int));
        (events, stalled)
    }

    /// Spin phase: every flying projectile takes the spin speed of its
    /// progress and turns by it.
    pub fn rotate_boomerangs(&mut self, settings: &BoomerangSettings, dt: u64)
        requires
            old(self).wf(),
            settings.wf(),
            dt <= DELTA_LIMIT,
        ensures
            final(self).wf(),
            final(self).slots@ == spin_all(old(self).slots@, *settings, dt as int),
    {
        let n = self.slots.len();
        let mut i: usize = 0;
        while i < n
            invariant
                n == old(self).slots@.len(),
                self.slots@.len() == n,
                i <= n,
                slots_wf(self.slots@),
                forall|j: int| 0 <= j < i ==> #[trigger] self.slots@[j] == spin_slot(
                    old(self).slots@[j],
                    *settings,
                    dt as int,
                ),
                forall|j: int| i <= j < n ==> #[trigger] self.slots@[j] == old(self).slots@[j],
                settings.wf(),
                dt <= DELTA_LIMIT,
            decreases n - i,
        {
            let slot = replace_slot(&mut self.slots, i, None);
            match slot {
                Some(mut p) => {
                    if p.state == FlightState::Flying {
                        rotate_boomerang(&mut p, settings, dt);
                    }
                    replace_slot(&mut self.slots, i, Some(p));
                },
                None => {
                    replace_slot(&mut self.slots, i, None);
                },
            }
            i = i + 1;
        }
        assert(self.slots@ =~= spin_all(old(self).slots@, *settings, dt as int));
    }

    /// The first slot that holds flying projectile `entity`, if any.
    pub fn find_flying(&self, entity: u64) -> (r: Option<usize>)
        ensures
            r matches Some(i) ==> first_flying(self.slots@, entity) == Some(i as int),
            r is None ==> first_flying(self.slots@, entity) is None,
    {
        let mut i: usize = 0;
        while i < self.slots.len()
            invariant
                i <= self.slots@.len(),
                forall|j: int| 0 <= j < i ==> !flying_entity(#[trigger] self.slots@[j], entity),
            decreases self.slots@.len() - i,
        {
            match &self.slots[i] {
                Some(p) => {
                    if p.state == FlightState::Flying && p.entity == entity {
                        proof {
                            lemma_first_flying_is(self.slots@, entity, i as int);
                        }
                        return Some(i);
                    }
                },
                None => {},
            }
            i = i + 1;
        }
        proof {
            lemma_first_flying_none(self.slots@, entity);
        }
        None
    }

    /// Consumes one bounce, as `bounce_applied` says. Returns whether a flying
    /// projectile of the event's entity took it.
    pub fn apply_bounce(&mut self, event: &BounceBoomerangEvent) -> (matched: bool)
        requires
            old(self).wf(),
        ensures
            final(self).wf(),
            final(self).slots@ == bounce_applied(old(self).slots@, *event),
            matched == (first_flying(old(self).slots@, event.boomerang_entity) is Some),
            slots_continue(old(self).slots@, final(self).slots@),
    {
        match self.find_flying(event.boomerang_entity) {
            None => false,
            Some(i) => {
                proof {
                    assert(first_flying(self.slots@, event.boomerang_entity) == Some(i as int));
                    lemma_first_flying_found(self.slots@, event.boomerang_entity);
                }
                let slot = replace_slot(&mut self.slots, i, None);
                match slot {
                    Some(mut p) => {
                        on_boomerang_bounce_advance_to_next_pathing_step_or_fall_down(&mut p);
                        replace_slot(&mut self.slots, i, Some(p));
                    },
                    None => {},
                }
                true
            },
        }
    }

    /// Bounce phase: drains the bounces of the flight phase, in order, as
    /// `bounces_applied` says. A bounce that finds no flying projectile of its
    /// entity changes nothing, the others are still consumed, and it comes
    /// back in the result.
    pub fn on_boomerang_bounce_advance_to_next_pathing_step_or_fall_down(
        &mut self,
        events: &Vec<BounceBoomerangEvent>,
    ) -> (unmatched: Vec<BounceBoomerangEvent>)
        requires
            old(self).wf(),
        ensures
            final(self).wf(),
            final(self).slots@ == bounces_applied(old(self).slots@, events@),
            unmatched@ == unmatched_bounces(old(self).slots@, events@),
            slots_continue(old(self).slots@, final(self).slots@),
    {
        let mut unmatched: Vec<BounceBoomerangEvent> = Vec::new();
        let mut k: usize = 0;
        while k < events.len()
            invariant
                k <= events@.len(),
                slots_wf(self.slots@),
                self.slots@ == bounces_applied(old(self).slots@, events@.subrange(0, k as int)),
                unmatched@ == unmatched_bounces(old(self).slots@, events@.subrange(0, k as int)),
                slots_continue(old(self).slots@, self.slots@),
            decreases events@.len() - k,
        {
            let ghost before = self.slots@;
            let matched = self.apply_bounce(&events[k]);
            if !matched {
                unmatched.push(events[k]);
            }
            proof {
                lemma_continue_trans(old(self).slots@, before, self.slots@);
                assert(events@.subrange(0, k + 1).drop_last() =~= events@.subrange(0, k as int));
            }
            k = k + 1;
        }
        assert(events@.subrange(0, k as int) =~= events@);
        unmatched
    }

    /// Fall phase: every falling projectile drops for one tick; reports those
    /// that reach the ground, in slot order.
    pub fn move_falling_boomerangs(&mut self, settings: &BoomerangSettings, dt: u64) -> (landed: Vec<u64>)
        requires
            old(self).wf(),
            settings.wf(),
            dt <= DELTA_LIMIT,
        ensures
            final(self).wf(),
            final(self).slots@ == fall_all(old(self).slots@, *settings, dt as int),
            landed@ == landings(old(self).slots@, *settings, dt as int),
    {
        let mut landed: Vec<u64> = Vec::new();
        let n = self.slots.len();
        let mut i: usize = 0;
        while i < n
            invariant
                n == old(self).slots@.len(),
                self.slots@.len() == n,
                i <= n,
                slots_wf(self.slots@),
                forall|j: int| 0 <= j < i ==> #[trigger] self.slots@[j] == fall_slot(
                    old(self).slots@[j],
                    *settings,
                    dt as int,
                ),
                forall|j: int| i <= j < n ==> #[trigger] self.slots@[j] == old(self).slots@[j],
                landed@ == landings(old(self).slots@.subrange(0, i as int), *settings, dt as int),
                settings.wf(),
                dt <= DELTA_LIMIT,
            decreases n - i,
        {
            let slot = replace_slot(&mut self.slots, i, None);
            match slot {
                Some(mut p) => {
                    if p.state == FlightState::Falling {
                        if move_falling_boomerang(&mut p, settings, dt) {
                            landed.push(p.entity);
                        }
                    }
                    replace_slot(&mut self.slots, i, Some(p));
                },
                None => {
                    replace_slot(&mut self.slots, i, None);
                },
            }
            assert(old(self).slots@.subrange(0, i + 1).drop_last() =~= old(self).slots@.subrange(0, i as int));
            i = i + 1;
        }
        assert(old(self).slots@.subrange(0, n as int) =~= old(self).slots@);
        assert(self.slots@ =~= fall_all(old(self).slots@, *settings, dt as int));
        landed
    }

    /// Despawn phase: empties the slot of every falling projectile that landed.
    pub fn on_boomerang_fallen_despawn_boomerang(&mut self, landed: &Vec<u64>)
        requires
            old(self).wf(),
        ensures
            final(self).wf(),
            final(self).slots@ == despawn_all(old(self).slots@, landed@),
    {
        let n = self.slots.len();
        let mut i: usize = 0;
        while i < n
            invariant
                n == old(self).slots@.len(),
                self.slots@.len() == n,
                i <= n,
                slots_wf(self.slots@),
                forall|j: int| 0 <= j < i ==> #[trigger] self.slots@[j] == despawn_slot(old(self).slots@[j], landed@),
                forall|j: int| i <= j < n ==> #[trigger] self.slots@[j] == old(self).slots@[j],
            decreases n - i,
        {
            let slot = replace_slot(&mut self.slots, i, None);
            match slot {
                Some(p) => {
                    if p.state == FlightState::Falling && contains_entity(landed, p.entity) {
                    } else {
                        replace_slot(&mut self.slots, i, Some(p));
                    }
                },
                None => {},
            }
            i = i + 1;
        }
        assert(self.slots@ =~= despawn_all(old(self).slots@, landed@));
    }

    /// One tick of the flight engine, in phase order: falling, despawn of the
    /// landed, flight, spin, bounce consumption; the slots end as
    /// `tick_slots` says. A projectile that starts falling begins to drop on
    /// the next tick. Every projectile stays on its path with its progress a
    /// fraction of at most one, and its path index never goes back.
    pub fn tick(
        &mut self,
        positions: &Vec<Option<Vec3>>,
        settings: &BoomerangSettings,
        time: &DilatedTime,
    ) -> (r: FlightEvents)
        requires
            old(self).wf(),
            table_ok(positions@),
            settings.wf(),
            time.wf(),
        ensures
            final(self).wf(),
            final(self).slots@ == tick_slots(old(self).slots@, positions@, *settings, time.delta as int),
            slots_continue(old(self).slots@, final(self).slots@),
            forall|i: int| 0 <= i < final(self).slots@.len() && #[trigger] final(self).slots@[i] is Some
                ==> {
                    let p = final(self).slots@[i].unwrap();
                    &&& p.boomerang.path_index < p.boomerang.path.len()
                    &&& p.boomerang.progress_on_current_segment <= PROGRESS_ONE
                },
            r.landed@ == landings(old(self).slots@, *settings, time.delta as int),
            r.bounces@ == bounce_events(old(self).slots@, positions@, *settings, time.delta as int),
            r.stalled@ == stalls(old(self).slots@, positions@, *settings, time.delta as int),
    {
        let dt = time.delta();
        let ghost s0 = self.slots@;
        let landed = self.move_falling_boomerangs(settings, dt);
        let ghost s1 = self.slots@;
        assert(slots_continue(s0, s1)) by {
            assert forall|i: int| 0 <= i < s1.len() && #[trigger] s1[i] is Some implies s0[i] is Some
                && continues(s0[i].unwrap(), s1[i].unwrap()) by {
                assert(s1[i] == fall_slot(s0[i], *settings, dt as int));
            }
        }
        self.on_boomerang_fallen_despawn_boomerang(&landed);
        let ghost s2 = self.slots@;
        assert(slots_continue(s1, s2)) by {
            assert forall|i: int| 0 <= i < s2.len() && #[trigger] s2[i] is Some implies s1[i] is Some
                && continues(s1[i].unwrap(), s2[i].unwrap()) by {
                assert(s2[i] == despawn_slot(s1[i], landed@));
            }
        }
        assert forall|i: int| 0 <= i < s0.len() && (is_flying(#[trigger] s0[i]) || is_flying(s2[i])) implies s0[i]
            == s2[i] by {
            assert(s1[i] == fall_slot(s0[i], *settings, dt as int));
            assert(s2[i] == despawn_slot(s1[i], landed@));
        }
        proof {
            lemma_flight_events_agree(s0, s2, positions@, *settings, dt as int);
        }
        let (bounces, stalled) = self.move_flying_boomerangs(positions, settings, dt);
        let ghost s3 = self.slots@;
        assert(slots_continue(s2, s3)) by {
            assert forall|i: int| 0 <= i < s3.len() && #[trigger] s3[i] is Some implies s2[i] is Some
                && continues(s2[i].unwrap(), s3[i].unwrap()) by {
                assert(s3[i] == fly_slot(s2[i], positions@, *settings, dt as int));
            }
        }
        self.rotate_boomerangs(settings, dt);
        let ghost s4 = self.slots@;
        assert(slots_continue(s3, s4)) by {
            assert forall|i: int| 0 <= i < s4.len() && #[trigger] s4[i] is Some implies s3[i] is Some
                && continues(s3[i].unwrap(), s4[i].unwrap()) by {
                assert(s4[i] == spin_slot(s3[i], *settings, dt as int));
            }
        }
        let unmatched = self.on_boomerang_bounce_advance_to_next_pathing_step_or_fall_down(&bounces);
        proof {
            lemma_continue_trans(s0, s1, s2);
            lemma_continue_trans(s0, s2, s3);
            lemma_continue_trans(s0, s3, s4);
            lemma_continue_trans(s0, s4, self.slots@);
        }
        FlightEvents { bounces, landed, stalled, unmatched }
    }
}

/// The slot that `first_flying` names holds that flying projectile.
proof fn lemma_first_flying_found(slots: Seq<Option<Projectile>>, e: u64)
    requires
        first_flying(slots, e) is Some,
    ensures
        0 <= first_flying(slots, e).unwrap() < slots.len(),
        flying_entity(slots[first_flying(slots, e).unwrap()], e),
    decreases slots.len(),
{
    if slots.len() > 0 {
        if first_flying(slots.drop_last(), e) is Some {
            lemma_first_flying_found(slots.drop_last(), e);
        }
    }
}

/// Whether `e` is among `ids`.
pub fn contains_entity(ids: &Vec<u64>, e: u64) -> (r: bool)
    ensures
        r == ids@.contains(e),
{
    let mut i: usize = 0;
    while i < ids.len()
        invariant
            i <= ids@.len(),
            forall|j: int| 0 <= j < i ==> ids@[j] != e,
        decreases ids@.len() - i,
    {
        if ids[i] == e {
            return true;
        }
        i = i + 1;
    }
    false
}

} // verus!
