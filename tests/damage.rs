use boomerang_core::boomerang::{BoomerangTargetKind, ThrowBoomerangEvent};
use boomerang_core::flight::Boomerangs;
use boomerang_core::geometry::Vec3;
use boomerang_core::health::{
    apply_health_events, contact_damager, damage_phase, death_events, on_damage_event, on_health_event,
    projectile_damagers, CanDamage, CollisionStarted, Damager, DeathEvent, Health, HealthChange,
    HealthEvent,
};

fn damage(target: u64, amount: u32) -> HealthEvent {
    HealthEvent::Damage { target, amount, bounce_count: 2 }
}

#[test]
fn scenario_three_hits_kill_once_after_the_third() {
    let mut healths = vec![None, Some(Health(3))];
    assert_eq!(on_health_event(&mut healths, damage(1, 1)), HealthChange::Changed { entity: 1, remaining: 2 });
    assert_eq!(on_health_event(&mut healths, damage(1, 1)), HealthChange::Changed { entity: 1, remaining: 1 });
    assert_eq!(
        on_health_event(&mut healths, damage(1, 1)),
        HealthChange::Died(DeathEvent { entity: 1, bounce_count: 2 })
    );
    assert_eq!(healths[1], None);
    assert_eq!(on_health_event(&mut healths, damage(1, 1)), HealthChange::Unaffected);
}

#[test]
fn three_hits_in_one_tick_report_one_death() {
    let mut healths = vec![None, Some(Health(3))];
    let events = vec![damage(1, 1), damage(1, 1), damage(1, 1), damage(1, 1)];
    let changes = apply_health_events(&mut healths, &events);
    let deaths = death_events(&changes);
    assert_eq!(deaths, vec![DeathEvent { entity: 1, bounce_count: 2 }]);
    assert!(matches!(changes[2], HealthChange::Died(_)));
    assert_eq!(changes[3], HealthChange::Unaffected);
}

#[test]
fn overkill_and_zero_damage() {
    let mut healths = vec![Some(Health(2))];
    assert_eq!(on_health_event(&mut healths, damage(0, 0)), HealthChange::Unaffected);
    assert_eq!(healths[0], Some(Health(2)));
    assert!(matches!(on_health_event(&mut healths, damage(0, u32::MAX)), HealthChange::Died(_)));
    assert_eq!(on_health_event(&mut healths, damage(5, 1)), HealthChange::Unaffected);
}

#[test]
fn exhausted_health_dies_on_any_hit() {
    let mut healths = vec![Some(Health(0))];
    assert_eq!(
        on_health_event(&mut healths, damage(0, 0)),
        HealthChange::Died(DeathEvent { entity: 0, bounce_count: 2 })
    );
}

#[test]
fn collisions_pair_health_with_damagers() {
    let healths = vec![None, Some(Health(3)), Some(Health(1))];
    let damagers = vec![
        Damager { entity: 10, damage: CanDamage(1), bounce_count: 2 },
        Damager { entity: 11, damage: CanDamage(4), bounce_count: 0 },
    ];
    let collisions = vec![
        CollisionStarted(10, 1),
        CollisionStarted(2, 11),
        CollisionStarted(0, 10),
        CollisionStarted(1, 2),
    ];
    let events = on_damage_event(&collisions, &healths, &damagers);
    assert_eq!(
        events,
        vec![
            HealthEvent::Damage { target: 1, amount: 1, bounce_count: 2 },
            HealthEvent::Damage { target: 2, amount: 4, bounce_count: 0 },
        ]
    );
}

#[test]
fn projectile_hits_carry_their_bounce_count() {
    let positions = vec![Some(Vec3::new(0, 0, 0)), Some(Vec3::new(1000, 0, 0))];
    let mut rangs = Boomerangs::new();
    let throw = ThrowBoomerangEvent { thrower_entity: 0, target: vec![BoomerangTargetKind::Entity(1)] };
    rangs.spawn(&throw, 20, 1, &positions);
    let damagers = projectile_damagers(&rangs);
    assert_eq!(damagers, vec![Damager { entity: 20, damage: CanDamage(1), bounce_count: 1 }]);
    let mut healths = vec![None, Some(Health(1))];
    let changes = damage_phase(&vec![CollisionStarted(1, 20)], &mut healths, &damagers);
    assert_eq!(changes, vec![HealthChange::Died(DeathEvent { entity: 1, bounce_count: 1 })]);
    assert_eq!(healths[1], None);
}


#[test]
fn an_entity_that_both_hurts_and_can_be_hurt_is_hit_only_by_its_pair() {
    // entity 1 holds health and deals damage; it touches entity 5, which does neither
    let healths = vec![None, Some(Health(3))];
    let damagers = vec![contact_damager(1, CanDamage(2))];
    assert!(on_damage_event(&vec![CollisionStarted(1, 5), CollisionStarted(5, 1)], &healths, &damagers).is_empty());
}

#[test]
fn health_changes_are_reported_with_deaths() {
    let mut healths = vec![Some(Health(2)), Some(Health(1))];
    let damagers = vec![contact_damager(7, CanDamage(1))];
    assert_eq!(damagers[0].bounce_count, 0);
    let changes = damage_phase(
        &vec![CollisionStarted(0, 7), CollisionStarted(7, 1)],
        &mut healths,
        &damagers,
    );
    assert_eq!(
        changes,
        vec![
            HealthChange::Changed { entity: 0, remaining: 1 },
            HealthChange::Died(DeathEvent { entity: 1, bounce_count: 0 }),
        ]
    );
    assert_eq!(healths, vec![Some(Health(1)), None]);
}
