use bot_core::impact::BodyImpactHandler;
use bot_core::vecmath::Vec3i;

#[test]
fn t_impact_then_full_decay_removes_entry() {
    // One hit, then updates totalling one second: the entry is gone and no
    // rotation is emitted for the bone any more.
    let mut h = BodyImpactHandler::new();
    h.handle_impact(
        7,
        Vec3i { x: 1_000, y: 0, z: 0 },
        Vec3i { x: 0, y: 1_000, z: 0 },
    );
    assert!(h.is_affected(7));

    let cmds1 = h.update_and_apply(500);
    assert_eq!(cmds1.len(), 1);
    assert_eq!(cmds1[0].bone, 7);
    // Fresh entry: the full 24-degree flinch.
    assert_eq!(cmds1[0].angle_mdeg, 24_000);
    // The axis is the cross product of point and direction.
    assert_eq!(cmds1[0].axis, Vec3i { x: 0, y: 0, z: 1_000_000 });

    let cmds2 = h.update_and_apply(500);
    assert_eq!(cmds2.len(), 1);
    // Halfway through the decay: half the flinch.
    assert_eq!(cmds2[0].angle_mdeg, 12_000);

    // The second update advanced the progress to one second: pruned.
    assert!(!h.is_affected(7));
    let cmds3 = h.update_and_apply(500);
    assert_eq!(cmds3.len(), 0);
}

#[test]
fn t_degenerate_axis_is_skipped() {
    // Point and direction parallel: no axis, no entry.
    let mut h = BodyImpactHandler::new();
    h.handle_impact(
        3,
        Vec3i { x: 1_000, y: 0, z: 0 },
        Vec3i { x: 2_000, y: 0, z: 0 },
    );
    assert!(!h.is_affected(3));
    assert_eq!(h.update_and_apply(100).len(), 0);
}

#[test]
fn t_second_impact_restarts_blend() {
    // A new impact on a flinching bone resets the blend instead of stacking.
    let mut h = BodyImpactHandler::new();
    h.handle_impact(
        5,
        Vec3i { x: 1_000, y: 0, z: 0 },
        Vec3i { x: 0, y: 1_000, z: 0 },
    );
    let _ = h.update_and_apply(400);
    h.handle_impact(
        5,
        Vec3i { x: 0, y: 1_000, z: 0 },
        Vec3i { x: 0, y: 0, z: 1_000 },
    );
    let cmds = h.update_and_apply(100);
    assert_eq!(cmds.len(), 1);
    // Progress was reset to zero, so the full flinch comes back, about the
    // new axis.
    assert_eq!(cmds[0].angle_mdeg, 24_000);
    assert_eq!(cmds[0].axis, Vec3i { x: 1_000_000, y: 0, z: 0 });
}

#[test]
fn t_one_entry_per_bone() {
    let mut h = BodyImpactHandler::new();
    h.handle_impact(
        1,
        Vec3i { x: 1_000, y: 0, z: 0 },
        Vec3i { x: 0, y: 1_000, z: 0 },
    );
    h.handle_impact(
        1,
        Vec3i { x: 1_000, y: 0, z: 0 },
        Vec3i { x: 0, y: 1_000, z: 0 },
    );
    h.handle_impact(
        2,
        Vec3i { x: 1_000, y: 0, z: 0 },
        Vec3i { x: 0, y: 1_000, z: 0 },
    );
    let cmds = h.update_and_apply(10);
    assert_eq!(cmds.len(), 2);
    assert_eq!(cmds[0].bone, 1);
    assert_eq!(cmds[1].bone, 2);
}
