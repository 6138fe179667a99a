use boomerang_core::boomerang::{
    move_flying_boomerang, on_throw_boomerang_spawn_boomerang, BoomerangTargetKind, FlightState,
    FlightStep, ThrowBoomerangEvent, Boomerang,
};
use boomerang_core::easing::{EaseFunction, PROGRESS_ONE};
use boomerang_core::flight::Boomerangs;
use boomerang_core::geometry::Vec3;
use boomerang_core::settings::{BoomerangSettings, BOOMERANG_FLYING_HEIGHT};
use boomerang_core::time_dilation::DilatedTime;

fn linear_settings() -> BoomerangSettings {
    let mut s = BoomerangSettings::default();
    s.min_movement_speed = 8000;
    s.max_movement_speed = 18000;
    s.easing_function = EaseFunction::Linear;
    s
}

fn clock(ms: u64) -> DilatedTime {
    let mut t = DilatedTime::default();
    t.scale_time(ms);
    t
}

#[test]
fn scenario_fixed_target_bounces_twice_then_falls_and_lands() {
    let positions = vec![Some(Vec3::new(0, 0, 0))];
    let settings = linear_settings();
    let time = clock(16);
    let mut rangs = Boomerangs::new();
    let throw = ThrowBoomerangEvent {
        thrower_entity: 0,
        target: vec![BoomerangTargetKind::Position(Vec3::new(10000, 0, 0))],
    };
    assert!(rangs.spawn(&throw, 100, 1, &positions));
    let mut bounces = Vec::new();
    let mut became_falling = false;
    let mut landed = Vec::new();
    let mut last_index = 0;
    for _ in 0..10_000 {
        let events = rangs.tick(&positions, &settings, &time);
        for b in events.bounces.iter() {
            assert_eq!(b.boomerang_entity, 100);
            bounces.push(b.bounce_on);
        }
        landed.extend(events.landed.iter().copied());
        if let Some(p) = &rangs.slots[0] {
            assert!(p.boomerang.path_index >= last_index);
            assert!(p.boomerang.path_index < p.boomerang.path.len());
            assert!(p.boomerang.progress_on_current_segment <= PROGRESS_ONE);
            last_index = p.boomerang.path_index;
            if p.state == FlightState::Falling {
                became_falling = true;
            }
        } else {
            break;
        }
    }
    assert_eq!(
        bounces,
        vec![
            BoomerangTargetKind::Position(Vec3::new(10000, 0, 0)),
            BoomerangTargetKind::Entity(0)
        ]
    );
    assert!(became_falling);
    assert_eq!(landed, vec![100]);
    assert!(rangs.slots[0].is_none());
}

#[test]
fn bounce_places_the_projectile_exactly_on_the_waypoint() {
    let positions = vec![Some(Vec3::new(0, 0, 0))];
    let settings = linear_settings();
    let throw = ThrowBoomerangEvent {
        thrower_entity: 0,
        target: vec![BoomerangTargetKind::Position(Vec3::new(10000, 0, 0))],
    };
    let mut p = on_throw_boomerang_spawn_boomerang(&throw, 7, 1, &positions).unwrap();
    assert_eq!(p.position, Vec3::new(0, BOOMERANG_FLYING_HEIGHT, 0));
    let mut steps = 0;
    loop {
        let step = move_flying_boomerang(&mut p, &positions, &settings, 16);
        steps += 1;
        match step {
            FlightStep::Moved => {
                assert!(p.position.x > 0 && p.position.x < 10000);
                assert_eq!(p.position.y, BOOMERANG_FLYING_HEIGHT);
            }
            FlightStep::Bounced(e) => {
                assert_eq!(e.boomerang_entity, 7);
                assert_eq!(p.position, Vec3::new(10000, BOOMERANG_FLYING_HEIGHT, 0));
                break;
            }
            FlightStep::Stalled => panic!("no waypoint is missing"),
        }
        assert!(steps < 10_000);
    }
}

#[test]
fn first_tick_moves_at_minimum_speed() {
    let positions = vec![Some(Vec3::new(0, 0, 0))];
    let settings = linear_settings();
    let throw = ThrowBoomerangEvent {
        thrower_entity: 0,
        target: vec![BoomerangTargetKind::Position(Vec3::new(10000, 0, 0))],
    };
    let mut p = on_throw_boomerang_spawn_boomerang(&throw, 7, 1, &positions).unwrap();
    let step = move_flying_boomerang(&mut p, &positions, &settings, 16);
    assert_eq!(step, FlightStep::Moved);
    // 8 m/s for 16 ms
    assert_eq!(p.position, Vec3::new(128, BOOMERANG_FLYING_HEIGHT, 0));
    assert_eq!(p.boomerang.progress_on_current_segment, 0);
    let step = move_flying_boomerang(&mut p, &positions, &settings, 16);
    assert_eq!(step, FlightStep::Moved);
    // progress 1 - 9872 / 10000, in basis points
    assert_eq!(p.boomerang.progress_on_current_segment, 128);
}

#[test]
fn scenario_despawned_homing_target_stalls_the_projectile() {
    let mut positions = vec![Some(Vec3::new(0, 0, 0)), Some(Vec3::new(0, 0, 20000))];
    let settings = linear_settings();
    let time = clock(16);
    let mut rangs = Boomerangs::new();
    let throw = ThrowBoomerangEvent {
        thrower_entity: 0,
        target: vec![BoomerangTargetKind::Entity(1)],
    };
    assert!(rangs.spawn(&throw, 100, 1, &positions));
    for _ in 0..10 {
        rangs.tick(&positions, &settings, &time);
    }
    let before = rangs.slots[0].as_ref().unwrap().position;
    assert!(before.z > 0);
    positions[1] = None;
    for _ in 0..100 {
        let events = rangs.tick(&positions, &settings, &time);
        assert!(events.bounces.is_empty());
        let p = rangs.slots[0].as_ref().unwrap();
        assert_eq!(p.position, before);
        assert_eq!(p.state, FlightState::Flying);
        assert_eq!(p.boomerang.path_index, 0);
    }
}

#[test]
fn homing_follows_a_moving_target() {
    let mut positions = vec![Some(Vec3::new(0, 0, 0)), Some(Vec3::new(10000, 0, 0))];
    let settings = linear_settings();
    let throw = ThrowBoomerangEvent {
        thrower_entity: 0,
        target: vec![BoomerangTargetKind::Entity(1)],
    };
    let mut p = on_throw_boomerang_spawn_boomerang(&throw, 5, 1, &positions).unwrap();
    move_flying_boomerang(&mut p, &positions, &settings, 16);
    assert_eq!(p.position, Vec3::new(128, BOOMERANG_FLYING_HEIGHT, 0));
    positions[1] = Some(Vec3::new(128, 0, 10000));
    move_flying_boomerang(&mut p, &positions, &settings, 16);
    assert_eq!(p.position.x, 128);
    assert!(p.position.z > 0);
}

#[test]
fn projectile_on_its_target_bounces_at_once() {
    let positions = vec![Some(Vec3::new(0, 0, 0))];
    let settings = linear_settings();
    let throw = ThrowBoomerangEvent {
        thrower_entity: 0,
        target: vec![BoomerangTargetKind::Position(Vec3::new(0, 0, 0))],
    };
    let mut p = on_throw_boomerang_spawn_boomerang(&throw, 5, 1, &positions).unwrap();
    let step = move_flying_boomerang(&mut p, &positions, &settings, 16);
    assert!(matches!(step, FlightStep::Bounced(_)));
}

#[test]
fn spawn_needs_a_living_thrower() {
    let positions = vec![None, Some(Vec3::new(0, 0, 0))];
    let throw = ThrowBoomerangEvent { thrower_entity: 0, target: vec![] };
    assert!(on_throw_boomerang_spawn_boomerang(&throw, 5, 1, &positions).is_none());
    let mut rangs = Boomerangs::new();
    assert!(!rangs.spawn(&throw, 5, 1, &positions));
    assert!(rangs.slots.is_empty());
}

#[test]
fn new_projectile_starts_at_the_path_start() {
    let path = vec![BoomerangTargetKind::Entity(3), BoomerangTargetKind::Entity(3)];
    let b = Boomerang::new(path);
    assert_eq!(b.path_index, 0);
    assert_eq!(b.progress_on_current_segment, 0);
    assert!(b.is_last_segment());
}

#[test]
fn falling_projectile_lands_and_is_despawned() {
    let positions = vec![Some(Vec3::new(0, 0, 0))];
    let settings = linear_settings();
    let time = clock(100);
    let mut rangs = Boomerangs::new();
    let throw = ThrowBoomerangEvent { thrower_entity: 0, target: vec![] };
    assert!(rangs.spawn(&throw, 9, 1, &positions));
    // the thrower is both ends of the only segment: it bounces at once and falls
    let events = rangs.tick(&positions, &settings, &time);
    assert_eq!(events.bounces.len(), 1);
    assert!(events.landed.is_empty());
    let p = rangs.slots[0].as_ref().unwrap();
    assert_eq!(p.state, FlightState::Falling);
    assert_eq!(p.position.y, BOOMERANG_FLYING_HEIGHT);
    // falls 5 m/s for 100 ms: the whole flying height in the next tick
    let events = rangs.tick(&positions, &settings, &time);
    assert!(events.bounces.is_empty());
    assert_eq!(events.landed, vec![9]);
    assert!(rangs.slots[0].is_none());
}

#[test]
fn vanished_start_waypoint_stalls_even_on_the_target() {
    // the segment runs from entity 1, which is gone, to the fixed point the
    // projectile already sits on
    let positions = vec![Some(Vec3::new(0, 0, 0)), None];
    let settings = linear_settings();
    let path = vec![
        BoomerangTargetKind::Entity(1),
        BoomerangTargetKind::Position(Vec3::new(0, 0, 0)),
        BoomerangTargetKind::Entity(0),
    ];
    let mut p = boomerang_core::boomerang::Projectile {
        entity: 4,
        boomerang: Boomerang::new(path),
        position: Vec3::new(0, BOOMERANG_FLYING_HEIGHT, 0),
        heading: 0,
        angular_speed: 0,
        state: FlightState::Flying,
        damage: 1,
    };
    assert_eq!(move_flying_boomerang(&mut p, &positions, &settings, 16), FlightStep::Stalled);
    assert_eq!(p.boomerang.path_index, 0);
}

#[test]
fn stalled_projectiles_and_stray_bounces_are_reported() {
    let mut positions = vec![Some(Vec3::new(0, 0, 0)), Some(Vec3::new(0, 0, 20000))];
    let settings = linear_settings();
    let time = clock(16);
    let mut rangs = Boomerangs::new();
    let throw = ThrowBoomerangEvent { thrower_entity: 0, target: vec![BoomerangTargetKind::Entity(1)] };
    rangs.spawn(&throw, 100, 1, &positions);
    positions[1] = None;
    let events = rangs.tick(&positions, &settings, &time);
    assert_eq!(events.stalled, vec![100]);
    assert!(events.unmatched.is_empty());
    let stray = vec![boomerang_core::boomerang::BounceBoomerangEvent {
        boomerang_entity: 55,
        bounce_on: BoomerangTargetKind::Entity(0),
    }];
    let unmatched = rangs.on_boomerang_bounce_advance_to_next_pathing_step_or_fall_down(&stray);
    assert_eq!(unmatched, stray);
    assert_eq!(rangs.slots[0].as_ref().unwrap().boomerang.path_index, 0);
}
