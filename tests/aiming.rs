use boomerang_core::aim_mode::{cleanup_target_list, AimMode, AimModeState};
use boomerang_core::boomerang::{on_throw_boomerang_spawn_boomerang, BoomerangTargetKind};
use boomerang_core::easing::PROGRESS_ONE;
use boomerang_core::geometry::Vec3;
use boomerang_core::targeting::{
    initialize_target_list, line_of_sight_query, plan_target_query, record_target_near_mouse,
    ShapeHit, TargetingOutcome, AUTOTARGETING_RADIUS, MAX_TARGETS_SELECTABLE,
};
use boomerang_core::time_dilation::SLOW_MO_SCALING_FACTOR;

fn hit(entity: u64) -> Option<ShapeHit> {
    Some(ShapeHit { entity, point: Vec3::new(1000, 0, 0) })
}

#[test]
fn shape_cast_reaches_past_the_cursor_by_half_the_radius() {
    let list = initialize_target_list(MAX_TARGETS_SELECTABLE);
    let q = plan_target_query(&list, 1, Vec3::new(0, 0, 0), Vec3::new(3000, 0, 4000), AUTOTARGETING_RADIUS)
        .unwrap();
    assert_eq!(q.max_distance, 6000);
    assert_eq!(q.excluded, 1);
    assert_eq!(q.radius, 2000);
    assert!(plan_target_query(&list, 1, Vec3::new(5, 5, 5), Vec3::new(5, 5, 5), 2000).is_none());
}

#[test]
fn line_of_sight_ray_heads_for_the_candidate() {
    let h = ShapeHit { entity: 4, point: Vec3::new(10, 0, 0) };
    let q = line_of_sight_query(1, Vec3::new(0, 0, 0), &h).unwrap();
    assert_eq!(q.toward, Vec3::new(10, 0, 0));
    assert_eq!(q.excluded, 1);
    let on_origin = ShapeHit { entity: 4, point: Vec3::new(0, 0, 0) };
    assert!(line_of_sight_query(1, Vec3::new(0, 0, 0), &on_origin).is_none());
}

#[test]
fn visible_candidate_is_acquired() {
    let mut list = initialize_target_list(3);
    assert_eq!(record_target_near_mouse(&mut list, hit(7), Some(7)), TargetingOutcome::Acquired(7));
    assert_eq!(list.targets, vec![7]);
}

#[test]
fn scenario_occluded_candidate_is_never_added() {
    let mut list = initialize_target_list(3);
    for _ in 0..5 {
        assert_eq!(record_target_near_mouse(&mut list, hit(7), Some(99)), TargetingOutcome::Occluded);
        assert_eq!(record_target_near_mouse(&mut list, hit(7), None), TargetingOutcome::Occluded);
    }
    assert!(list.targets.is_empty());
}

#[test]
fn no_candidate_changes_nothing() {
    let mut list = initialize_target_list(3);
    assert_eq!(record_target_near_mouse(&mut list, None, Some(7)), TargetingOutcome::NoCandidate);
    assert!(list.targets.is_empty());
}

#[test]
fn hovering_a_candidate_adds_it_once() {
    let mut list = initialize_target_list(3);
    assert_eq!(record_target_near_mouse(&mut list, hit(7), Some(7)), TargetingOutcome::Acquired(7));
    for _ in 0..10 {
        assert_eq!(
            record_target_near_mouse(&mut list, hit(7), Some(7)),
            TargetingOutcome::AlreadyTargeted
        );
    }
    assert_eq!(list.targets, vec![7]);
    assert_eq!(record_target_near_mouse(&mut list, hit(8), Some(8)), TargetingOutcome::Acquired(8));
    assert_eq!(record_target_near_mouse(&mut list, hit(7), Some(7)), TargetingOutcome::Acquired(7));
    assert_eq!(list.targets, vec![7, 8, 7]);
}

#[test]
fn full_list_is_a_no_op() {
    let mut list = initialize_target_list(2);
    record_target_near_mouse(&mut list, hit(1), Some(1));
    record_target_near_mouse(&mut list, hit(2), Some(2));
    assert_eq!(list.targets.len(), 2);
    for e in 3..10 {
        assert_eq!(record_target_near_mouse(&mut list, hit(e), Some(e)), TargetingOutcome::Full);
        assert_eq!(list.targets.len(), 2);
    }
    assert!(plan_target_query(&list, 1, Vec3::new(0, 0, 0), Vec3::new(10, 0, 0), 2000).is_none());
}

#[test]
fn entering_aim_mode_slows_time_and_starts_a_session() {
    let mut aim = AimMode::new(1, MAX_TARGETS_SELECTABLE);
    assert_eq!(aim.time.scaling_factor, PROGRESS_ONE);
    assert!(aim.enter_aim_mode());
    assert_eq!(aim.state, AimModeState::Aiming);
    assert_eq!(aim.time.scaling_factor, SLOW_MO_SCALING_FACTOR);
    assert!(aim.session.as_ref().unwrap().targets.is_empty());
    // entering again is ignored
    assert!(!aim.enter_aim_mode());
}

#[test]
fn scenario_exit_with_no_targets_throws_nothing() {
    let mut aim = AimMode::new(1, MAX_TARGETS_SELECTABLE);
    assert!(aim.exit_aim_mode().is_none());
    aim.enter_aim_mode();
    assert!(aim.exit_aim_mode().is_none());
    assert_eq!(aim.state, AimModeState::Normal);
    assert_eq!(aim.time.scaling_factor, PROGRESS_ONE);
    assert!(aim.session.is_none());
}

#[test]
fn targeting_chains_the_throw_origin_and_exit_restores_it() {
    let mut aim = AimMode::new(1, MAX_TARGETS_SELECTABLE);
    assert!(aim.record_target(hit(5), Some(5)).is_none());
    aim.enter_aim_mode();
    assert!(aim.target_query(Vec3::new(0, 0, 0), Vec3::new(100, 0, 0)).unwrap().excluded == 1);
    assert_eq!(aim.record_target(hit(5), Some(5)), Some(TargetingOutcome::Acquired(5)));
    assert_eq!(aim.throw_origin, 5);
    assert_eq!(aim.target_query(Vec3::new(0, 0, 0), Vec3::new(100, 0, 0)).unwrap().excluded, 5);
    assert_eq!(aim.record_target(hit(6), Some(6)), Some(TargetingOutcome::Acquired(6)));
    assert_eq!(aim.throw_origin, 6);
    let throw = aim.exit_aim_mode().unwrap();
    assert_eq!(throw.thrower_entity, 1);
    assert_eq!(throw.target, vec![BoomerangTargetKind::Entity(5), BoomerangTargetKind::Entity(6)]);
    assert_eq!(aim.throw_origin, 1);
    assert_eq!(aim.time.scaling_factor, PROGRESS_ONE);
}

#[test]
fn targets_become_a_path_from_and_back_to_the_thrower() {
    let mut list = initialize_target_list(3);
    record_target_near_mouse(&mut list, hit(4), Some(4));
    record_target_near_mouse(&mut list, hit(2), Some(2));
    record_target_near_mouse(&mut list, hit(9), Some(9));
    let throw = cleanup_target_list(&list, 1).unwrap();
    let positions = vec![None, Some(Vec3::new(0, 0, 0))];
    let p = on_throw_boomerang_spawn_boomerang(&throw, 50, 1, &positions).unwrap();
    assert_eq!(
        p.boomerang.path,
        vec![
            BoomerangTargetKind::Entity(1),
            BoomerangTargetKind::Entity(4),
            BoomerangTargetKind::Entity(2),
            BoomerangTargetKind::Entity(9),
            BoomerangTargetKind::Entity(1),
        ]
    );
}
