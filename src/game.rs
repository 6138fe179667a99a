//! One simulation step of the whole weapon, with its phases in their fixed
//! order: the clock, flight with its bounces, falling and landing, then damage
//! from the collisions the physics reported, then deaths.

use vstd::prelude::*;
use crate::geometry::Vec3;
use crate::settings::BoomerangSettings;
use crate::time_dilation::{DELTA_LIMIT, scaled_delta};
use crate::boomerang::{BounceBoomerangEvent, ThrowBoomerangEvent, table_ok, lookup, waypoint_ok, is_spawn_of};
use crate::flight::{Boomerangs, bounce_events, landings, stalls, slots_continue, tick_slots};
use crate::aim_mode::AimMode;
use crate::health::{
    CollisionStarted, Damager, DeathEvent, Health, HealthChange, damage_phase, death_events,
    projectile_damagers, damage_events, health_steps, deaths_of, slot_damagers,
};

verus! {

/// The state of the weapon's world that this core owns or reads.
pub struct Game {
    /// Live positions by entity id, as the physics world reports them.
    pub positions: Vec<Option<Vec3>>,
    /// Health by entity id.
    pub healths: Vec<Option<Health>>,
    pub boomerangs: Boomerangs,
    pub aim: AimMode,
    pub settings: BoomerangSettings,
}

/// The notifications of one step.
pub struct TickReport {
    pub bounces: Vec<BounceBoomerangEvent>,
    pub landed: Vec<u64>,
    /// Projectiles held back by a waypoint whose entity is gone.
    pub stalled: Vec<u64>,
    /// Bounces that found no flying projectile to advance.
    pub unmatched_bounces: Vec<BounceBoomerangEvent>,
    /// Every change of health, in order, deaths included.
    pub health_changes: Vec<HealthChange>,
    pub deaths: Vec<DeathEvent>,
}

impl Game {
    pub open spec fn wf(&self) -> bool {
        &&& table_ok(self.positions@)
        &&& self.boomerangs.wf()
        &&& self.aim.wf()
        &&& self.settings.wf()
    }

    /// Spawns the projectile of a throw as entity `entity`, dealing `damage`,
    /// in a new slot; nothing where the thrower no longer exists.
    pub fn throw(&mut self, event: &ThrowBoomerangEvent, entity: u64, damage: u32) -> (spawned: bool)
        requires
            old(self).wf(),
            event.target.len() < usize::MAX - 2,
            forall|i: int| 0 <= i < event.target.len() ==> waypoint_ok(#[trigger] event.target@[i]),
        ensures
            final(self).wf(),
            spawned == (lookup(old(self).positions@, event.thrower_entity) is Some),
            final(self).positions@ == old(self).positions@,
            final(self).healths@ == old(self).healths@,
            final(self).aim == old(self).aim,
            final(self).settings == old(self).settings,
            !spawned ==> final(self).boomerangs.slots@ == old(self).boomerangs.slots@,
            spawned ==> {
                &&& final(self).boomerangs.slots@.len() == old(self).boomerangs.slots@.len() + 1
                &&& final(self).boomerangs.slots@.drop_last() == old(self).boomerangs.slots@
                &&& final(self).boomerangs.slots@.last() matches Some(p) && is_spawn_of(
                    p,
                    event.thrower_entity,
                    event.target@,
                    entity,
                    damage,
                    old(self).positions@,
                )
            },
    {
        self.boomerangs.spawn(event, entity, damage, &self.positions)
    }

    /// One step of `elapsed` milliseconds of real time. The clock is scaled
    /// first, so every phase moves by slow-motion time while aiming. Then the
    /// flight engine runs all its phases, then the collisions become damage
    /// from every remaining projectile and the other damagers (which are no
    /// projectiles, so their hits carry bounce count zero), then deaths come
    /// out.
    pub fn tick(
        &mut self,
        elapsed: u64,
        collisions: &Vec<CollisionStarted>,
        other_damagers: &Vec<Damager>,
    ) -> (r: TickReport)
        requires
            old(self).wf(),
            elapsed <= DELTA_LIMIT,
            forall|i: int| 0 <= i < other_damagers@.len() ==> #[trigger] other_damagers@[i].bounce_count == 0,
        ensures
            final(self).wf(),
            final(self).aim.time.delta as int == scaled_delta(
                old(self).aim.time.scaling_factor as int,
                elapsed as int,
            ),
            final(self).positions@ == old(self).positions@,
            final(self).settings == old(self).settings,
            final(self).aim.state == old(self).aim.state,
            final(self).aim.session == old(self).aim.session,
            final(self).aim.throw_origin == old(self).aim.throw_origin,
            final(self).aim.time.scaling_factor == old(self).aim.time.scaling_factor,
            final(self).boomerangs.slots@ == tick_slots(
                old(self).boomerangs.slots@,
                old(self).positions@,
                old(self).settings,
                final(self).aim.time.delta as int,
            ),
            slots_continue(old(self).boomerangs.slots@, final(self).boomerangs.slots@),
            r.landed@ == landings(
                old(self).boomerangs.slots@,
                old(self).settings,
                final(self).aim.time.delta as int,
            ),
            r.bounces@ == bounce_events(
                old(self).boomerangs.slots@,
                old(self).positions@,
                old(self).settings,
                final(self).aim.time.delta as int,
            ),
            r.stalled@ == stalls(
                old(self).boomerangs.slots@,
                old(self).positions@,
                old(self).settings,
                final(self).aim.time.delta as int,
            ),
            ({
                let damagers = slot_damagers(final(self).boomerangs.slots@) + other_damagers@;
                let (end, changes) = health_steps(
                    old(self).healths@,
                    damage_events(collisions@, old(self).healths@, damagers),
                );
                &&& final(self).healths@ == end
                &&& r.health_changes@ == changes
                &&& r.deaths@ == deaths_of(changes)
            }),
    {
        self.aim.time.scale_time(elapsed);
        let flight = self.boomerangs.tick(&self.positions, &self.settings, &self.aim.time);
        let mut damagers = projectile_damagers(&self.boomerangs);
        let mut others = other_damagers.clone();
        damagers.append(&mut others);
        let health_changes = damage_phase(collisions, &mut self.healths, &damagers);
        let deaths = death_events(&health_changes);
        TickReport {
            bounces: flight.bounces,
            landed: flight.landed,
            stalled: flight.stalled,
            unmatched_bounces: flight.unmatched,
            health_changes,
            deaths,
        }
    }
}

} // verus!
