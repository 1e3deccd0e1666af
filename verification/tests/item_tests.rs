use bot_core::item::{BotKind, ItemKind, TargetKind, WeaponKind};
use bot_core::projectile::{
    critical_permill, find_contact_hit, resolve_hit, ActorHitboxes, ActorInfo, ContactInfo, Damage,
    DamageMsg, HitInfo, ProjectileOwner,
};
use bot_core::vecmath::Vec3i;

#[test]
fn t_associated_weapon_mapping() {
    assert_eq!(ItemKind::PlasmaGun.associated_weapon(), Some(WeaponKind::PlasmaRifle));
    assert_eq!(ItemKind::Ak47.associated_weapon(), Some(WeaponKind::Ak47));
    assert_eq!(ItemKind::M4.associated_weapon(), Some(WeaponKind::M4));
    assert_eq!(ItemKind::Glock.associated_weapon(), Some(WeaponKind::Glock));
    assert_eq!(ItemKind::RailGun.associated_weapon(), Some(WeaponKind::RailGun));
    assert_eq!(ItemKind::Medkit.associated_weapon(), None);
    assert_eq!(ItemKind::Medpack.associated_weapon(), None);
    assert_eq!(ItemKind::Ammo.associated_weapon(), None);
    assert_eq!(ItemKind::Grenade.associated_weapon(), None);
    assert_eq!(ItemKind::MasterKey.associated_weapon(), None);
    assert_eq!(ItemKind::default(), ItemKind::Medkit);
}

#[test]
fn t_target_kind_carries_bot_kind() {
    let t = TargetKind::Bot(BotKind::Mutant);
    assert!(matches!(t, TargetKind::Bot(BotKind::Mutant)));
    assert!(matches!(TargetKind::Player, TargetKind::Player));
}

#[test]
fn t_damage_scale_and_amount() {
    let p = Damage::Point { amount_mhp: 10_000 };
    assert_eq!(p.amount(), 10_000);
    // A hitbox factor of 0.5 halves the amount; the sign of the factor is
    // ignored.
    assert_eq!(p.scale(500), Damage::Point { amount_mhp: 5_000 });
    assert_eq!(p.scale(-500), Damage::Point { amount_mhp: 5_000 });
    let s = Damage::Splash { radius_milli: 3_000, amount_mhp: 40_000 };
    assert_eq!(s.amount(), 40_000);
    // Scaling touches the amount, never the radius.
    assert_eq!(
        s.scale(1_500),
        Damage::Splash { radius_milli: 3_000, amount_mhp: 60_000 }
    );
    assert_eq!(Damage::default(), Damage::Point { amount_mhp: 0 });
}

#[test]
fn t_point_damage_hits_one_actor() {
    let hit = HitInfo {
        position: Vec3i { x: 0, y: 0, z: 0 },
        hit_actor: 5,
        shooter: 9,
        critical_probability_permill: 10,
    };
    let actors = vec![
        ActorInfo { handle: 5, position: Vec3i { x: 0, y: 0, z: 0 } },
        ActorInfo { handle: 6, position: Vec3i { x: 100, y: 0, z: 0 } },
    ];
    let msgs = resolve_hit(&Damage::Point { amount_mhp: 15_000 }, &hit, &actors);
    assert_eq!(
        msgs,
        vec![DamageMsg {
            target: 5,
            dealer: 9,
            amount_mhp: 15_000,
            critical_probability_permill: 10,
        }]
    );
}

#[test]
fn t_splash_damage_reaches_radius_only() {
    let hit = HitInfo {
        position: Vec3i { x: 0, y: 0, z: 0 },
        hit_actor: 0,
        shooter: 9,
        critical_probability_permill: 0,
    };
    let actors = vec![
        ActorInfo { handle: 1, position: Vec3i { x: 1_000, y: 0, z: 0 } },
        ActorInfo { handle: 2, position: Vec3i { x: 0, y: 2_500, z: 0 } },
        ActorInfo { handle: 3, position: Vec3i { x: 0, y: 0, z: 9_000 } },
    ];
    let msgs = resolve_hit(
        &Damage::Splash { radius_milli: 3_000, amount_mhp: 40_000 },
        &hit,
        &actors,
    );
    // The two actors within three units are hit, in list order; the third is
    // out of range.
    assert_eq!(msgs.len(), 2);
    assert_eq!(msgs[0].target, 1);
    assert_eq!(msgs[1].target, 2);
    assert_eq!(msgs[0].amount_mhp, 40_000);
    assert_eq!(msgs[0].dealer, 9);
}

#[test]
fn t_critical_probability_by_owner() {
    assert_eq!(
        critical_permill(&ProjectileOwner::Weapon { base_critical_permill: 25 }),
        25
    );
    // A turret's projectiles carry a flat one percent.
    assert_eq!(critical_permill(&ProjectileOwner::TurretOwner), 10);
    assert_eq!(critical_permill(&ProjectileOwner::Other), 0);
}

#[test]
fn t_contact_hit_matching() {
    let actors = vec![
        ActorHitboxes { handle: 5, colliders: vec![100, 101] },
        ActorHitboxes { handle: 6, colliders: vec![200] },
    ];
    // First contact touches a wall, second the projectile itself against a
    // hitbox of actor 6, seen from either side of the contact pair.
    let contacts = vec![
        ContactInfo { collider1: 9, collider2: 777 },
        ContactInfo { collider1: 200, collider2: 9 },
        ContactInfo { collider1: 9, collider2: 100 },
    ];
    // The first hitbox contact wins; the later one on actor 5 is not reached.
    assert_eq!(find_contact_hit(9, &contacts, &actors), Some((6, 200)));
    // No character hitbox among the contacts: no hit.
    let walls = vec![ContactInfo { collider1: 9, collider2: 777 }];
    assert_eq!(find_contact_hit(9, &walls, &actors), None);
}
