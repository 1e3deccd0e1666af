use bot_core::bot::{bot_on_damage, is_probability_event_occurred, BotAgent, HitboxHit};
use bot_core::context::Target;
use bot_core::door::doors_near_actor;
use bot_core::impact::BodyImpactHandler;
use bot_core::level::{death_zone_victims, update_trails, Aabb, ShotTrail};
use bot_core::projectile::ActorInfo;
use bot_core::turret::{Hostility, ShootMode, Turret};
use bot_core::vecmath::Vec3i;

#[test]
fn t_death_zone_catches_only_those_inside() {
    let zones = vec![
        Aabb { min: Vec3i { x: 0, y: 0, z: 0 }, max: Vec3i { x: 1_000, y: 1_000, z: 1_000 } },
        Aabb {
            min: Vec3i { x: 5_000, y: 0, z: 0 },
            max: Vec3i { x: 6_000, y: 1_000, z: 1_000 },
        },
    ];
    let actors = vec![
        ActorInfo { handle: 1, position: Vec3i { x: 500, y: 500, z: 500 } },
        ActorInfo { handle: 2, position: Vec3i { x: 2_000, y: 0, z: 0 } },
        ActorInfo { handle: 3, position: Vec3i { x: 5_500, y: 0, z: 0 } },
    ];
    assert_eq!(death_zone_victims(&zones, &actors), vec![1, 3]);
    assert_eq!(death_zone_victims(&vec![], &actors), Vec::<u64>::new());
}

#[test]
fn t_trails_fade_and_expire() {
    let mut trails = vec![
        ShotTrail { lifetime_ms: 0, max_lifetime_ms: 200 },
        ShotTrail { lifetime_ms: 150, max_lifetime_ms: 200 },
    ];
    let alphas = update_trails(&mut trails, 100);
    // Half the first trail's life gone, the second just finished.
    assert_eq!(alphas, vec![500, 0]);
    assert_eq!(trails.len(), 1);
    assert_eq!(trails[0], ShotTrail { lifetime_ms: 100, max_lifetime_ms: 200 });
    let alphas2 = update_trails(&mut trails, 100);
    assert_eq!(alphas2, vec![0]);
    assert!(trails.is_empty());
}

#[test]
fn t_doors_near_actor_by_distance() {
    let doors = vec![
        (10, Vec3i { x: 1_000, y: 0, z: 0 }),
        (11, Vec3i { x: 5_000, y: 0, z: 0 }),
        (12, Vec3i { x: 0, y: 1_200, z: 0 }),
    ];
    // Interaction reach is 1.25 units.
    let near = doors_near_actor(&doors, Vec3i { x: 0, y: 0, z: 0 });
    assert_eq!(near, vec![10, 12]);
}

#[test]
fn t_probability_event_edges() {
    // Zero never occurs; certainty always does.
    for _ in 0..50 {
        assert!(!is_probability_event_occurred(0));
        assert!(is_probability_event_occurred(1000));
        assert!(is_probability_event_occurred(5_000));
    }
}

#[test]
fn t_damage_reaction_sets_target_and_staggers() {
    let mut agent = BotAgent::new(1_200, 10_000);
    let mut impacts = BodyImpactHandler::new();
    let dealer = Some(Target { handle: 42, position: Vec3i { x: 3_000, y: 0, z: 0 } });
    let r = bot_on_damage(
        &mut agent,
        &mut impacts,
        dealer,
        10_000,
        Some(HitboxHit { is_head: false, bone: 5 }),
        Some((Vec3i { x: 1_000, y: 0, z: 0 }, Vec3i { x: 0, y: 1_000, z: 0 })),
        0,
        100_000,
        70_000,
    );
    // The attacker became the target.
    assert_eq!(agent.state.target, dealer);
    // A body hit can never burst the head; chance zero doubly so.
    assert!(!r.blow_up_head);
    assert_eq!(r.extra_damage_mhp, 0);
    // Thirty hitpoints lost at once: staggered, grunting.
    assert!(r.staggered);
    assert!(r.play_pain_sound);
    assert_eq!(agent.restoration_time_ms, 800);
    // The hit bone flinches.
    assert!(impacts.is_affected(5));
}

#[test]
fn t_damage_reaction_certain_headshot() {
    let mut agent = BotAgent::new(1_200, 10_000);
    let mut impacts = BodyImpactHandler::new();
    let r = bot_on_damage(
        &mut agent,
        &mut impacts,
        None,
        10_000,
        Some(HitboxHit { is_head: true, bone: 1 }),
        None,
        1_000,
        100_000,
        95_000,
    );
    assert!(r.blow_up_head);
    assert_eq!(r.extra_damage_mhp, 10_000_000);
    // A small scratch: no stagger.
    assert!(!r.staggered);
    assert_eq!(agent.restoration_time_ms, 0);
    // No target handed in: none set.
    assert!(agent.state.target.is_none());
    // No impact point: no flinch.
    assert!(!impacts.is_affected(1));
}

#[test]
fn t_dead_bot_never_staggers() {
    let mut agent = BotAgent::new(1_200, 10_000);
    let mut impacts = BodyImpactHandler::new();
    let r = bot_on_damage(
        &mut agent, &mut impacts, None, 10_000, None, None, 0, 100_000, 0,
    );
    assert!(!r.staggered);
    assert!(!r.play_pain_sound);
}

#[test]
fn t_turret_constructor_defaults() {
    let t = Turret::new(ShootMode::Simultaneously, Hostility::Monsters, 200, 9, 3);
    assert_eq!(t.barrels.len(), 3);
    assert_eq!(t.barrel_index, 0);
    assert!(t.target.is_none());
    assert_eq!(t.shoot_interval_ms, 200);
    assert_eq!(t.shoot_timer_ms, 0);
    assert_eq!(t.target_check_timer_ms, 0);
}
