use boomerang_core::boomerang::BoomerangTargetKind;
use boomerang_core::geometry::{Vec3, COORD_LIMIT};
use boomerang_core::preview::{
    get_raycast_target, on_fire_action_throw_boomerang, update_boomerang_preview_position, RayHit,
    PREVIEW_DISTANCE,
};

#[test]
fn preview_ray_starts_at_flying_height() {
    let q = get_raycast_target(3, Vec3::new(100, 0, 100), Vec3::new(5000, 500, 100)).unwrap();
    assert_eq!(q.origin, Vec3::new(100, 500, 100));
    assert_eq!(q.max_distance, PREVIEW_DISTANCE);
    assert_eq!(q.excluded, 3);
    assert!(get_raycast_target(3, Vec3::new(100, 0, 100), Vec3::new(100, 500, 100)).is_none());
}

#[test]
fn preview_without_a_hit_reaches_full_length() {
    let w = update_boomerang_preview_position(Vec3::new(0, 0, 0), Vec3::new(10000, 500, 0), None, true);
    assert_eq!(w.position, Vec3::new(50000, 500, 0));
    assert_eq!(w.target_entity, None);
}

#[test]
fn preview_stops_at_the_hit() {
    let hit = Some(RayHit { entity: 8, distance: 3000 });
    let w = update_boomerang_preview_position(Vec3::new(0, 0, 0), Vec3::new(0, 500, -10000), hit, true);
    assert_eq!(w.position, Vec3::new(0, 500, -3000));
    assert_eq!(w.target_entity, Some(8));
    // a wall takes no throw origin
    let w = update_boomerang_preview_position(Vec3::new(0, 0, 0), Vec3::new(0, 500, -10000), hit, false);
    assert_eq!(w.target_entity, None);
}

#[test]
fn preview_stays_in_the_world() {
    let edge = Vec3::new(COORD_LIMIT - 10, 0, 0);
    let w = update_boomerang_preview_position(edge, Vec3::new(COORD_LIMIT, 500, 0), None, false);
    assert_eq!(w.position.x, COORD_LIMIT);
}

#[test]
fn firing_throws_at_the_preview() {
    let w = update_boomerang_preview_position(Vec3::new(0, 0, 0), Vec3::new(10000, 500, 0), None, true);
    let t = on_fire_action_throw_boomerang(1, &w);
    assert_eq!(t.thrower_entity, 1);
    assert_eq!(t.target, vec![BoomerangTargetKind::Position(Vec3::new(50000, 500, 0))]);
    let hit = Some(RayHit { entity: 8, distance: 3000 });
    let w = update_boomerang_preview_position(Vec3::new(0, 0, 0), Vec3::new(10000, 500, 0), hit, true);
    let t = on_fire_action_throw_boomerang(1, &w);
    assert_eq!(t.target, vec![BoomerangTargetKind::Entity(8)]);
}
