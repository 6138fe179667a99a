use boomerang_core::aim_mode::AimMode;
use boomerang_core::flight::Boomerangs;
use boomerang_core::game::Game;
use boomerang_core::geometry::Vec3;
use boomerang_core::health::{CollisionStarted, DeathEvent, Health};
use boomerang_core::settings::BoomerangSettings;
use boomerang_core::targeting::{ShapeHit, TargetingOutcome, MAX_TARGETS_SELECTABLE};

fn game() -> Game {
    Game {
        positions: vec![Some(Vec3::new(0, 0, 0)), Some(Vec3::new(4000, 0, 0)), Some(Vec3::new(4000, 0, 4000))],
        healths: vec![None, Some(Health(1)), Some(Health(2))],
        boomerangs: Boomerangs::new(),
        aim: AimMode::new(0, MAX_TARGETS_SELECTABLE),
        settings: BoomerangSettings::default(),
    }
}

#[test]
fn aim_throw_fly_and_kill() {
    let mut g = game();
    g.aim.enter_aim_mode();
    let hit1 = ShapeHit { entity: 1, point: Vec3::new(3000, 0, 0) };
    let hit2 = ShapeHit { entity: 2, point: Vec3::new(4000, 0, 3000) };
    assert_eq!(g.aim.record_target(Some(hit1), Some(1)), Some(TargetingOutcome::Acquired(1)));
    assert_eq!(g.aim.record_target(Some(hit2), Some(2)), Some(TargetingOutcome::Acquired(2)));
    let throw = g.aim.exit_aim_mode().unwrap();
    assert!(g.throw(&throw, 100, 1));

    let mut bounced_on_first = false;
    let mut deaths = Vec::new();
    for _ in 0..1000 {
        let collisions = if bounced_on_first { vec![CollisionStarted(100, 1)] } else { vec![] };
        let report = g.tick(16, &collisions, &vec![]);
        deaths.extend(report.deaths.iter().copied());
        if !report.bounces.is_empty() && !bounced_on_first {
            bounced_on_first = true;
        }
        if g.boomerangs.slots[0].is_none() {
            break;
        }
    }
    // the hit came after the first bounce: the projectile was on its second segment
    assert_eq!(deaths, vec![DeathEvent { entity: 1, bounce_count: 2 }]);
    assert_eq!(g.healths[1], None);
    assert_eq!(g.healths[2], Some(Health(2)));
    assert!(g.boomerangs.slots[0].is_none());
}

#[test]
fn slow_motion_slows_the_flight() {
    let mut fast = game();
    let mut slow = game();
    slow.aim.enter_aim_mode();
    let throw = boomerang_core::boomerang::ThrowBoomerangEvent {
        thrower_entity: 0,
        target: vec![boomerang_core::boomerang::BoomerangTargetKind::Entity(1)],
    };
    fast.throw(&throw, 100, 1);
    slow.throw(&throw, 100, 1);
    fast.tick(20, &vec![], &vec![]);
    slow.tick(20, &vec![], &vec![]);
    assert_eq!(fast.aim.time.delta, 20);
    assert_eq!(slow.aim.time.delta, 2);
    // 8 m/s: 160 mm at full speed, 16 mm at a tenth
    assert_eq!(fast.boomerangs.slots[0].as_ref().unwrap().position.x, 160);
    assert_eq!(slow.boomerangs.slots[0].as_ref().unwrap().position.x, 16);
}
