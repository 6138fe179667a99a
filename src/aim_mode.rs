//! The aim-mode controller: a two-state mode that gates the targeting
//! selector, slows the clock while aiming, moves the throw origin along the
//! chosen targets, and turns the finished target list into a throw.

use vstd::prelude::*;
use crate::geometry::Vec3;
use crate::easing::PROGRESS_ONE;
use crate::time_dilation::{DilatedTime, SLOW_MO_SCALING_FACTOR};
use crate::boomerang::{BoomerangTargetKind, ThrowBoomerangEvent, throw_path};
use crate::targeting::{
    AimModeTargets, ShapeCastQuery, ShapeHit, TargetingOutcome, initialize_target_list,
    plan_target_query, record_target_near_mouse, select, selected, target_query,
};

verus! {

/// Whether the player is aiming.
#[derive(Clone, Copy, Debug, PartialEq, Eq, Structural)]
pub enum AimModeState {
    Normal,
    Aiming,
}

/// Homing waypoints for a list of entities, in the same order.
pub open spec fn entity_waypoints(t: Seq<u64>) -> Seq<BoomerangTargetKind> {
    t.map_values(|e: u64| BoomerangTargetKind::Entity(e))
}

/// Turns a finished target list into the throw it asks for: `None` for an
/// empty list, else a throw by `thrower` homing on each target in order.
pub fn cleanup_target_list(list: &AimModeTargets, thrower: u64) -> (r: Option<ThrowBoomerangEvent>)
    ensures
        r is Some <==> list.targets@.len() > 0,
        r matches Some(ev) ==> ev.thrower_entity == thrower && ev.target@ == entity_waypoints(
            list.targets@,
        ),
{
    if list.targets.len() == 0 {
        return None;
    }
    let mut target: Vec<BoomerangTargetKind> = Vec::new();
    let mut i: usize = 0;
    while i < list.targets.len()
        invariant
            i <= list.targets@.len(),
            target@ == entity_waypoints(list.targets@.subrange(0, i as int)),
        decreases list.targets@.len() - i,
    {
        target.push(BoomerangTargetKind::Entity(list.targets[i]));
        i = i + 1;
        assert(entity_waypoints(list.targets@.subrange(0, i as int)) =~= entity_waypoints(
            list.targets@.subrange(0, i - 1 as int),
        ).push(BoomerangTargetKind::Entity(list.targets@[i - 1])));
    }
    assert(list.targets@.subrange(0, i as int) =~= list.targets@);
    Some(ThrowBoomerangEvent { thrower_entity: thrower, target })
}

/// A finished target list, made a throw and then a flight path, starts and
/// ends at the thrower and visits the targets in their order in between.
pub proof fn lemma_throw_round_trip(thrower: u64, targets: Seq<u64>)
    ensures
        ({
            let path = throw_path(thrower, entity_waypoints(targets));
            &&& path.len() == targets.len() + 2
            &&& path[0] == BoomerangTargetKind::Entity(thrower)
            &&& path.last() == BoomerangTargetKind::Entity(thrower)
            &&& forall|i: int| 0 <= i < targets.len() ==> #[trigger] path[i + 1]
                == BoomerangTargetKind::Entity(targets[i])
        }),
{
    let path = throw_path(thrower, entity_waypoints(targets));
    assert forall|i: int| 0 <= i < targets.len() implies #[trigger] path[i + 1]
        == BoomerangTargetKind::Entity(targets[i]) by {
        assert(path[i + 1] == entity_waypoints(targets)[i]);
    }
}

/// The aim mode with its session, the throw origin and the game clock.
pub struct AimMode {
    pub state: AimModeState,
    /// The aim session: present exactly while aiming.
    pub session: Option<AimModeTargets>,
    /// The player, to whom the throw origin returns.
    pub player: u64,
    /// The entity holding the throw origin: targeting queries start there.
    pub throw_origin: u64,
    /// Who held the throw origin when the aim began: the thrower.
    pub thrower: u64,
    /// Most targets an aim can select.
    pub max_targets: usize,
    /// The one scaled clock of the game.
    pub time: DilatedTime,
}

impl AimMode {
    /// Aiming exactly while a session exists; out of aim mode the clock runs
    /// at real speed and the player holds the throw origin; in it, the clock
    /// runs at slow motion.
    pub open spec fn wf(&self) -> bool {
        &&& self.time.wf()
        &&& match self.state {
            AimModeState::Normal => {
                &&& self.session is None
                &&& self.throw_origin == self.player
                &&& self.time.scaling_factor == PROGRESS_ONE
            },
            AimModeState::Aiming => {
                &&& self.session matches Some(s) && s.wf() && s.capacity == self.max_targets
                &&& self.time.scaling_factor == SLOW_MO_SCALING_FACTOR
            },
        }
    }

    /// Normal mode, the player holding the throw origin, the clock at real speed.
    pub fn new(player: u64, max_targets: usize) -> (r: AimMode)
        ensures
            r.wf(),
            r.state == AimModeState::Normal,
            r.player == player,
            r.thrower == player,
            r.max_targets == max_targets,
            r.time.delta == 0,
    {
        AimMode {
            state: AimModeState::Normal,
            session: None,
            player,
            throw_origin: player,
            thrower: player,
            max_targets,
            time: DilatedTime::default(),
        }
    }

    /// The aim input has been held past its threshold: enter aim mode with an
    /// empty session and the clock slowed. Does nothing while aiming already.
    /// Returns whether the mode was entered.
    pub fn enter_aim_mode(&mut self) -> (entered: bool)
        requires
            old(self).wf(),
        ensures
            final(self).wf(),
            entered == (old(self).state == AimModeState::Normal),
            !entered ==> *final(self) == *old(self),
            entered ==> {
                &&& final(self).state == AimModeState::Aiming
                &&& final(self).session matches Some(s) && s.targets@.len() == 0
                &&& final(self).thrower == old(self).throw_origin
                &&& final(self).throw_origin == old(self).throw_origin
                &&& final(self).player == old(self).player
                &&& final(self).max_targets == old(self).max_targets
                &&& final(self).time.scaling_factor == SLOW_MO_SCALING_FACTOR
                &&& final(self).time.delta == old(self).time.delta
            },
    {
        if self.state == AimModeState::Aiming {
            return false;
        }
        self.state = AimModeState::Aiming;
        self.session = Some(initialize_target_list(self.max_targets));
        self.thrower = self.throw_origin;
        self.time.set_relative_speed(SLOW_MO_SCALING_FACTOR);
        true
    }

    /// The aim input was released: leave aim mode. The session becomes a
    /// throw by the thrower if it holds any target; the throw origin returns
    /// to the player and the clock to real speed. Does nothing out of aim mode.
    pub fn exit_aim_mode(&mut self) -> (r: Option<ThrowBoomerangEvent>)
        requires
            old(self).wf(),
        ensures
            final(self).wf(),
            old(self).state == AimModeState::Normal ==> r is None && *final(self) == *old(self),
            old(self).state == AimModeState::Aiming ==> {
                let t = old(self).session.unwrap().targets@;
                &&& final(self).state == AimModeState::Normal
                &&& final(self).throw_origin == old(self).player
                &&& final(self).player == old(self).player
                &&& final(self).thrower == old(self).thrower
                &&& final(self).max_targets == old(self).max_targets
                &&& final(self).time.delta == old(self).time.delta
                &&& (r is Some <==> t.len() > 0)
                &&& r matches Some(ev) ==> ev.thrower_entity == old(self).thrower
                    && ev.target@ == entity_waypoints(t)
            },
    {
        if self.state == AimModeState::Normal {
            return None;
        }
        let session = self.session.take();
        let r = match &session {
            Some(list) => cleanup_target_list(list, self.thrower),
            None => None,
        };
        self.state = AimModeState::Normal;
        self.throw_origin = self.player;
        self.time.set_relative_speed(PROGRESS_ONE);
        r
    }

    /// The shape cast of this targeting tick, from the throw origin at
    /// `origin` toward `cursor`: none out of aim mode, with a full list, or
    /// with the cursor on the origin.
    pub fn target_query(&self, origin: Vec3, cursor: Vec3) -> (r: Option<ShapeCastQuery>)
        requires
            self.wf(),
            origin.in_bounds(),
            cursor.in_bounds(),
        ensures
            r == match self.session {
                None => None,
                Some(s) => target_query(
                    s.targets@,
                    s.capacity as int,
                    self.throw_origin,
                    origin,
                    cursor,
                    crate::targeting::AUTOTARGETING_RADIUS,
                ),
            },
    {
        match &self.session {
            None => None,
            Some(s) => plan_target_query(
                s,
                self.throw_origin,
                origin,
                cursor,
                crate::targeting::AUTOTARGETING_RADIUS,
            ),
        }
    }

    /// One targeting tick with the results of its queries. An acquired target
    /// joins the session and takes the throw origin, so the next query aims
    /// from it. Out of aim mode nothing happens and `None` comes back.
    pub fn record_target(&mut self, shape_hit: Option<ShapeHit>, ray_hit: Option<u64>) -> (r: Option<TargetingOutcome>)
        requires
            old(self).wf(),
        ensures
            final(self).wf(),
            final(self).state == old(self).state,
            final(self).player == old(self).player,
            final(self).thrower == old(self).thrower,
            final(self).time == old(self).time,
            old(self).state == AimModeState::Normal ==> r is None && *final(self) == *old(self),
            old(self).state == AimModeState::Aiming ==> {
                let s = old(self).session.unwrap();
                let outcome = select(s.targets@, s.capacity as int, shape_hit, ray_hit);
                &&& r == Some(outcome)
                &&& final(self).session matches Some(n) && n.targets@ == selected(s.targets@, outcome)
                &&& final(self).throw_origin == (match outcome {
                    TargetingOutcome::Acquired(e) => e,
                    _ => old(self).throw_origin,
                })
            },
    {
        let mut session = match self.session.take() {
            None => {
                return None;
            },
            Some(s) => s,
        };
        let outcome = record_target_near_mouse(&mut session, shape_hit, ray_hit);
        match outcome {
            TargetingOutcome::Acquired(e) => {
                self.throw_origin = e;
            },
            _ => {},
        }
        self.session = Some(session);
        Some(outcome)
    }
}

} // verus!
