//! The damage pipeline: collisions between a damaging and a damageable entity
//! become damage events, damage lowers health, and health that runs out is
//! removed with a death notification.

use vstd::prelude::*;
use crate::boomerang::Projectile;
use crate::flight::Boomerangs;

verus! {

/// Health points left. Removed from its owner once they reach zero.
#[derive(Clone, Copy, Debug, PartialEq, Eq, Structural)]
pub struct Health(pub i32);

/// Damage dealt on contact.
#[derive(Clone, Copy, Debug, PartialEq, Eq, Structural)]
pub struct CanDamage(pub u32);

/// Two entities started touching.
#[derive(Clone, Copy, Debug, PartialEq, Eq, Structural)]
pub struct CollisionStarted(pub u64, pub u64);

/// An entity that deals damage on contact, with the bounce count its hits carry.
#[derive(Clone, Copy, Debug, PartialEq, Eq, Structural)]
pub struct Damager {
    pub entity: u64,
    pub damage: CanDamage,
    /// Waypoints passed so far; zero for anything but a projectile.
    pub bounce_count: u64,
}

/// Something that happens to an entity's health.
#[derive(Clone, Copy, Debug, PartialEq, Eq, Structural)]
pub enum HealthEvent {
    Damage { target: u64, amount: u32, bounce_count: u64 },
}

/// An entity's health ran out.
#[derive(Clone, Copy, Debug, PartialEq, Eq, Structural)]
pub struct DeathEvent {
    pub entity: u64,
    pub bounce_count: u64,
}

/// What a health event did.
#[derive(Clone, Copy, Debug, PartialEq, Eq, Structural)]
pub enum HealthChange {
    /// The target has no health, or the damage was zero and left it alive.
    Unaffected,
    /// The target's health changed and it lives on.
    Changed { entity: u64, remaining: i32 },
    /// The target's health ran out and was removed.
    Died(DeathEvent),
}

/// A projectile as a damage dealer: its hits count the waypoints reached.
pub fn projectile_damager(p: &Projectile) -> (r: Damager)
    requires
        p.wf(),
    ensures
        r == (Damager {
            entity: p.entity,
            damage: CanDamage(p.damage),
            bounce_count: (p.boomerang.path_index + 1) as u64,
        }),
{
    Damager {
        entity: p.entity,
        damage: CanDamage(p.damage),
        bounce_count: (p.boomerang.path_index + 1) as u64,
    }
}

/// The collision is between exactly `a` and `b`, in either order.
pub open spec fn pairs(c: CollisionStarted, a: u64, b: u64) -> bool {
    (c.0 == a && c.1 == b) || (c.0 == b && c.1 == a)
}

/// Damage events of collision `c` for health owner `h`, one per matching
/// damager, in damager order.
pub open spec fn events_for(c: CollisionStarted, h: u64, ds: Seq<Damager>) -> Seq<HealthEvent>
    decreases ds.len(),
{
    if ds.len() == 0 {
        seq![]
    } else {
        let before = events_for(c, h, ds.drop_last());
        let d = ds.last();
        if pairs(c, h, d.entity) {
            before.push(HealthEvent::Damage { target: h, amount: d.damage.0, bounce_count: d.bounce_count })
        } else {
            before
        }
    }
}

/// Damage events of collision `c` for the first `k` entities of the health
/// table, in entity order.
pub open spec fn events_upto(c: CollisionStarted, hs: Seq<Option<Health>>, k: int, ds: Seq<Damager>) -> Seq<HealthEvent>
    decreases k,
{
    if k <= 0 {
        seq![]
    } else {
        let before = events_upto(c, hs, k - 1, ds);
        if hs[k - 1] is Some {
            before + events_for(c, (k - 1) as u64, ds)
        } else {
            before
        }
    }
}

/// Damage events of all collisions, in collision order.
pub open spec fn damage_events(cs: Seq<CollisionStarted>, hs: Seq<Option<Health>>, ds: Seq<Damager>) -> Seq<HealthEvent>
    decreases cs.len(),
{
    if cs.len() == 0 {
        seq![]
    } else {
        damage_events(cs.drop_last(), hs, ds) + events_upto(cs.last(), hs, hs.len() as int, ds)
    }
}

/// Turns the collisions of a tick into damage events: one for each collision,
/// each entity holding health (indexed by entity id in `healths`) and each
/// damager, where the collision's pair is exactly those two.
pub fn on_damage_event(
    collisions: &Vec<CollisionStarted>,
    healths: &Vec<Option<Health>>,
    damagers: &Vec<Damager>,
) -> (r: Vec<HealthEvent>)
    ensures
        r@ == damage_events(collisions@, healths@, damagers@),
{
    let mut out: Vec<HealthEvent> = Vec::new();
    let mut i: usize = 0;
    while i < collisions.len()
        invariant
            i <= collisions@.len(),
            out@ == damage_events(collisions@.subrange(0, i as int), healths@, damagers@),
        decreases collisions@.len() - i,
    {
        let c = collisions[i];
        let mut h: usize = 0;
        while h < healths.len()
            invariant
                i < collisions@.len(),
                c == collisions@[i as int],
                h <= healths@.len(),
                out@ == damage_events(collisions@.subrange(0, i as int), healths@, damagers@)
                    + events_upto(c, healths@, h as int, damagers@),
            decreases healths@.len() - h,
        {
            if healths[h].is_some() {
                let ghost base = out@;
                let mut k: usize = 0;
                while k < damagers.len()
                    invariant
                        i < collisions@.len(),
                        c == collisions@[i as int],
                        h < healths@.len(),
                        k <= damagers@.len(),
                        out@ == base + events_for(c, h as u64, damagers@.subrange(0, k as int)),
                    decreases damagers@.len() - k,
                {
                    let d = damagers[k];
                    let hid = h as u64;
                    if (c.0 == hid && c.1 == d.entity) || (c.0 == d.entity && c.1 == hid) {
                        out.push(HealthEvent::Damage { target: hid, amount: d.damage.0, bounce_count: d.bounce_count });
                    }
                    assert(damagers@.subrange(0, k + 1).drop_last() =~= damagers@.subrange(0, k as int));
                    k = k + 1;
                }
                assert(damagers@.subrange(0, k as int) =~= damagers@);
                assert(out@ =~= damage_events(collisions@.subrange(0, i as int), healths@, damagers@)
                    + events_upto(c, healths@, h + 1, damagers@));
            }
            h = h + 1;
        }
        assert(collisions@.subrange(0, i + 1).drop_last() =~= collisions@.subrange(0, i as int));
        i = i + 1;
    }
    assert(collisions@.subrange(0, i as int) =~= collisions@);
    out
}

/// Health after `amount` of damage, if any is left.
pub open spec fn damaged(h: Health, amount: u32) -> Option<Health> {
    if h.0 - amount <= 0 {
        None
    } else {
        Some(Health((h.0 - amount) as i32))
    }
}

/// The health table after one health event, and what the event did.
pub open spec fn health_step(hs: Seq<Option<Health>>, ev: HealthEvent) -> (Seq<Option<Health>>, HealthChange) {
    match ev {
        HealthEvent::Damage { target, amount, bounce_count } => if target < hs.len()
            && hs[target as int] is Some {
            let h = hs[target as int].unwrap();
            match damaged(h, amount) {
                None => (
                    hs.update(target as int, None),
                    HealthChange::Died(DeathEvent { entity: target, bounce_count }),
                ),
                Some(n) => if amount == 0 {
                    (hs, HealthChange::Unaffected)
                } else {
                    (hs.update(target as int, Some(n)), HealthChange::Changed { entity: target, remaining: n.0 })
                },
            }
        } else {
            (hs, HealthChange::Unaffected)
        },
    }
}

/// Applies one health event to the table of healths, indexed by entity id.
/// Damage lowers the target's health; health that reaches zero or less is
/// removed, so the entity cannot be damaged again, and its death is reported
/// with the hit's bounce count. An entity without health is not affected.
pub fn on_health_event(healths: &mut Vec<Option<Health>>, event: HealthEvent) -> (r: HealthChange)
    ensures
        (final(healths)@, r) == health_step(old(healths)@, event),
{
    match event {
        HealthEvent::Damage { target, amount, bounce_count } => {
            if target >= healths.len() as u64 {
                return HealthChange::Unaffected;
            }
            let t = target as usize;
            match healths[t] {
                None => HealthChange::Unaffected,
                Some(h) => {
                    let left: i64 = h.0 as i64 - amount as i64;
                    if left <= 0 {
                        healths.set(t, None);
                        HealthChange::Died(DeathEvent { entity: target, bounce_count })
                    } else if amount == 0 {
                        HealthChange::Unaffected
                    } else {
                        let n = Health(left as i32);
                        healths.set(t, Some(n));
                        HealthChange::Changed { entity: target, remaining: n.0 }
                    }
                },
            }
        },
    }
}

/// The deaths among the changes, in order.
pub open spec fn deaths_of(changes: Seq<HealthChange>) -> Seq<DeathEvent>
    decreases changes.len(),
{
    if changes.len() == 0 {
        seq![]
    } else {
        let before = deaths_of(changes.drop_last());
        match changes.last() {
            HealthChange::Died(d) => before.push(d),
            _ => before,
        }
    }
}

/// The health table after a sequence of events, and what each did.
pub open spec fn health_steps(hs: Seq<Option<Health>>, evs: Seq<HealthEvent>) -> (Seq<Option<Health>>, Seq<HealthChange>)
    decreases evs.len(),
{
    if evs.len() == 0 {
        (hs, seq![])
    } else {
        let (mid, changes) = health_steps(hs, evs.drop_last());
        let (end, change) = health_step(mid, evs.last());
        (end, changes.push(change))
    }
}

/// Drains the damage events of a tick, in order, and reports each change.
pub fn apply_health_events(healths: &mut Vec<Option<Health>>, events: &Vec<HealthEvent>) -> (r: Vec<HealthChange>)
    ensures
        (final(healths)@, r@) == health_steps(old(healths)@, events@),
{
    let mut out: Vec<HealthChange> = Vec::new();
    let mut i: usize = 0;
    while i < events.len()
        invariant
            i <= events@.len(),
            (healths@, out@) == health_steps(old(healths)@, events@.subrange(0, i as int)),
        decreases events@.len() - i,
    {
        let change = on_health_event(healths, events[i]);
        out.push(change);
        assert(events@.subrange(0, i + 1).drop_last() =~= events@.subrange(0, i as int));
        i = i + 1;
    }
    assert(events@.subrange(0, i as int) =~= events@);
    out
}

/// The deaths among the changes of a tick, in order, for the collaborators
/// that react to them.
pub fn death_events(changes: &Vec<HealthChange>) -> (r: Vec<DeathEvent>)
    ensures
        r@ == deaths_of(changes@),
{
    let mut out: Vec<DeathEvent> = Vec::new();
    let mut i: usize = 0;
    while i < changes.len()
        invariant
            i <= changes@.len(),
            out@ == deaths_of(changes@.subrange(0, i as int)),
        decreases changes@.len() - i,
    {
        match changes[i] {
            HealthChange::Died(d) => out.push(d),
            _ => {},
        }
        assert(changes@.subrange(0, i + 1).drop_last() =~= changes@.subrange(0, i as int));
        i = i + 1;
    }
    assert(changes@.subrange(0, i as int) =~= changes@);
    out
}

/// An entity dies at most once: once a death removed its health, no later
/// event changes it or reports its death again.
pub proof fn lemma_no_second_death(hs: Seq<Option<Health>>, ev: HealthEvent, e: u64)
    requires
        e < hs.len(),
        hs[e as int] is None,
    ensures
        health_step(hs, ev).0[e as int] is None,
        health_step(hs, ev).1 != HealthChange::Died(DeathEvent { entity: e, bounce_count: ev->bounce_count }),
{
}

/// The damagers of the projectiles in the slots, in slot order.
pub open spec fn slot_damagers(slots: Seq<Option<Projectile>>) -> Seq<Damager>
    decreases slots.len(),
{
    if slots.len() == 0 {
        seq![]
    } else {
        let before = slot_damagers(slots.drop_last());
        match slots.last() {
            Some(p) => before.push(Damager {
                entity: p.entity,
                damage: CanDamage(p.damage),
                bounce_count: (p.boomerang.path_index + 1) as u64,
            }),
            None => before,
        }
    }
}

/// Every projectile in flight or falling deals damage on contact.
pub fn projectile_damagers(b: &Boomerangs) -> (r: Vec<Damager>)
    requires
        b.wf(),
    ensures
        r@ == slot_damagers(b.slots@),
{
    let mut out: Vec<Damager> = Vec::new();
    let mut i: usize = 0;
    while i < b.slots.len()
        invariant
            b.wf(),
            i <= b.slots@.len(),
            out@ == slot_damagers(b.slots@.subrange(0, i as int)),
        decreases b.slots@.len() - i,
    {
        match &b.slots[i] {
            Some(p) => {
                out.push(projectile_damager(p));
            },
            None => {},
        }
        assert(b.slots@.subrange(0, i + 1).drop_last() =~= b.slots@.subrange(0, i as int));
        i = i + 1;
    }
    assert(b.slots@.subrange(0, i as int) =~= b.slots@);
    out
}

/// The damage phase of a tick: collisions become damage events, which are
/// applied in order. Every change comes back, in order: health that changed
/// (the "health changed" signal) and deaths.
pub fn damage_phase(
    collisions: &Vec<CollisionStarted>,
    healths: &mut Vec<Option<Health>>,
    damagers: &Vec<Damager>,
) -> (r: Vec<HealthChange>)
    ensures
        (final(healths)@, r@) == health_steps(
            old(healths)@,
            damage_events(collisions@, old(healths)@, damagers@),
        ),
{
    let events = on_damage_event(collisions, healths, damagers);
    apply_health_events(healths, &events)
}

/// A damager that is not a projectile: its hits carry bounce count zero.
pub fn contact_damager(entity: u64, damage: CanDamage) -> (r: Damager)
    ensures
        r == (Damager { entity, damage, bounce_count: 0 }),
{
    Damager { entity, damage, bounce_count: 0 }
}

} // verus!
