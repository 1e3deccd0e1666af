use bot_core::angle::SmoothAngle;
use bot_core::turret::{
    turret_update, Hostility, Plane, RayHit, ShootMode, Turret, TurretCandidate,
};
use bot_core::vecmath::Vec3i;

// One plane admitting the half-space x >= 0: a crude but honest frustum.
fn half_space_frustum() -> Vec<Plane> {
    vec![Plane { a: 1_000, b: 0, c: 0, d: 0 }]
}

fn fresh_turret(mode: ShootMode, hostility: Hostility, barrels: usize) -> Turret {
    Turret {
        shoot_mode: mode,
        hostility,
        yaw: SmoothAngle { angle: 0, target: 0, speed: 3_000 },
        pitch: SmoothAngle { angle: 0, target: 0, speed: 3_000 },
        shoot_interval_ms: 200,
        shoot_timer_ms: 0,
        barrel_index: 0,
        target_check_timer_ms: 0,
        target: None,
        self_collider: 1_000,
        barrels: vec![Vec3i { x: 0, y: 0, z: 0 }; barrels],
    }
}

fn clear(handle: u64, x: i64, is_player: bool) -> TurretCandidate {
    TurretCandidate {
        handle,
        position: Vec3i { x, y: 0, z: 0 },
        is_dead: false,
        is_player,
        hits: vec![],
    }
}

#[test]
fn t_selects_clear_closest_only() {
    // Three candidates: one outside the frustum, one occluded by a wall
    // (a non-capsule collider), one clear. The clear one wins even though
    // the occluded one is nearer.
    let mut t = fresh_turret(ShootMode::Consecutive, Hostility::All, 1);
    let outside = clear(1, -3_000, true);
    let mut occluded = clear(2, 2_000, true);
    occluded.hits = vec![RayHit { collider: 77, is_capsule: false }];
    let mut visible = clear(3, 6_000, true);
    visible.hits = vec![RayHit { collider: 88, is_capsule: true }];
    let cands = vec![outside, occluded, visible];
    let out = turret_update(
        &mut t,
        &cands,
        &half_space_frustum(),
        Vec3i { x: 0, y: 0, z: 0 },
        0,
        None,
        16,
    );
    assert_eq!(t.target, Some(3));
    assert!(out.targeting);
}

#[test]
fn t_own_collider_does_not_occlude() {
    let mut t = fresh_turret(ShootMode::Consecutive, Hostility::All, 1);
    let mut c = clear(4, 5_000, true);
    c.hits = vec![RayHit { collider: 1_000, is_capsule: false }]; // the turret itself
    let cands = vec![c];
    turret_update(
        &mut t,
        &cands,
        &half_space_frustum(),
        Vec3i { x: 0, y: 0, z: 0 },
        0,
        None,
        16,
    );
    assert_eq!(t.target, Some(4));
}

#[test]
fn t_hostility_monsters_never_picks_player() {
    // A player-tagged candidate is never selected under Monsters, even when
    // it is the closest; the monster behind it is.
    let mut t = fresh_turret(ShootMode::Consecutive, Hostility::Monsters, 1);
    let player = clear(1, 1_000, true);
    let monster = clear(2, 9_000, false);
    let cands = vec![player, monster];
    turret_update(
        &mut t,
        &cands,
        &half_space_frustum(),
        Vec3i { x: 0, y: 0, z: 0 },
        0,
        None,
        16,
    );
    assert_eq!(t.target, Some(2));
}

#[test]
fn t_dead_candidate_skipped_and_none_left() {
    let mut t = fresh_turret(ShootMode::Consecutive, Hostility::All, 1);
    let mut corpse = clear(1, 2_000, true);
    corpse.is_dead = true;
    let cands = vec![corpse];
    let out = turret_update(
        &mut t,
        &cands,
        &half_space_frustum(),
        Vec3i { x: 0, y: 0, z: 0 },
        0,
        None,
        16,
    );
    assert_eq!(t.target, None);
    assert!(!out.targeting);
    assert!(out.shots.is_empty());
}

#[test]
fn t_consecutive_cycles_barrels() {
    let mut t = fresh_turret(ShootMode::Consecutive, Hostility::All, 2);
    let cands = vec![clear(5, 4_000, true)];
    let frustum = half_space_frustum();
    let origin = Vec3i { x: 0, y: 0, z: 0 };
    let out1 = turret_update(&mut t, &cands, &frustum, origin, 0, Some(90_000), 16);
    assert_eq!(out1.shots, vec![0]);
    assert_eq!(t.barrel_index, 1);
    assert_eq!(out1.sounds.len(), 1);
    assert!(out1.sounds[0] < 3);
    // The fire timer was reset: no shot while it runs.
    let out2 = turret_update(&mut t, &cands, &frustum, origin, 0, Some(90_000), 16);
    assert!(out2.shots.is_empty());
    // Let the timer elapse: the second barrel fires and the index wraps.
    t.shoot_timer_ms = 0;
    let out3 = turret_update(&mut t, &cands, &frustum, origin, 0, Some(90_000), 16);
    assert_eq!(out3.shots, vec![1]);
    assert_eq!(t.barrel_index, 0);
}

#[test]
fn t_simultaneous_fires_all_barrels() {
    let mut t = fresh_turret(ShootMode::Simultaneously, Hostility::All, 3);
    let cands = vec![clear(5, 4_000, true)];
    let out = turret_update(
        &mut t,
        &cands,
        &half_space_frustum(),
        Vec3i { x: 0, y: 0, z: 0 },
        0,
        None,
        16,
    );
    assert_eq!(out.shots, vec![0, 1, 2]);
    assert_eq!(out.sounds.len(), 3);
    for s in out.sounds.iter() {
        assert!(*s < 3);
    }
}

#[test]
fn t_barrel_kick_springs_back() {
    let mut t = fresh_turret(ShootMode::Consecutive, Hostility::All, 1);
    let cands = vec![clear(5, 4_000, true)];
    let frustum = half_space_frustum();
    let origin = Vec3i { x: 0, y: 0, z: 0 };
    turret_update(&mut t, &cands, &frustum, origin, 0, None, 16);
    // Kicked to -20 units, then one spring step toward zero.
    assert_eq!(t.barrels[0], Vec3i { x: -12_000, y: 0, z: 0 });
    // No shot this tick: the offset keeps springing back.
    turret_update(&mut t, &cands, &frustum, origin, 0, None, 16);
    assert_eq!(t.barrels[0], Vec3i { x: -7_200, y: 0, z: 0 });
}

#[test]
fn t_idle_sweep_parks_pitch() {
    let mut t = fresh_turret(ShootMode::Consecutive, Hostility::All, 1);
    t.pitch.angle = 0;
    let cands: Vec<TurretCandidate> = vec![];
    // A full second per tick at 3 mdeg/ms pitch speed.
    let out1 = turret_update(
        &mut t,
        &cands,
        &half_space_frustum(),
        Vec3i { x: 0, y: 0, z: 0 },
        0,
        None,
        1_000,
    );
    assert!(out1.shots.is_empty());
    assert!(!out1.targeting);
    // The pitch moved toward its 90-degree park position.
    assert_eq!(t.pitch.target, 90_000);
    assert_eq!(t.pitch.angle, 3_000);
    // The yaw drifts: its target advanced by 50 degrees for the one-second
    // tick.
    assert_eq!(t.yaw.target, 50_000);
    // Outputs mirror the smoothed angles.
    assert_eq!(out1.body_yaw_mdeg, 90_000 + t.yaw.angle);
    assert_eq!(out1.barrel_pitch_mdeg, t.pitch.angle - 90_000);
}

#[test]
fn t_aim_follows_host_angles() {
    let mut t = fresh_turret(ShootMode::Consecutive, Hostility::All, 1);
    t.shoot_timer_ms = 1_000_000; // no shot; aiming only
    let cands = vec![clear(5, 4_000, true)];
    turret_update(
        &mut t,
        &cands,
        &half_space_frustum(),
        Vec3i { x: 0, y: 0, z: 0 },
        45_000,
        Some(60_000),
        1_000,
    );
    assert_eq!(t.yaw.target, 45_000);
    assert_eq!(t.pitch.target, 60_000);
    // 3 mdeg per ms for one second.
    assert_eq!(t.yaw.angle, 3_000);
    assert_eq!(t.pitch.angle, 3_000);
}
