use bot_core::actions::Action;
use bot_core::behavior::{tick_tree, BehaviorTree, BtNode, NodeKind};
use bot_core::context::{
    BehaviorContext, BehaviorInputs, BehaviorOutputs, BehaviorState, BotHostility, Candidate,
};
use bot_core::angle::SmoothAngle;
use bot_core::vecmath::Vec3i;
use bot_core::Status;

fn base_inputs() -> BehaviorInputs {
    BehaviorInputs {
        self_position: Vec3i { x: 0, y: 0, z: 0 },
        self_kind: 1,
        health_mhp: 100_000,
        hostility: BotHostility::Everyone,
        candidates: vec![],
        upper_layer_available: true,
        upper_layer_in_threaten: false,
        target_exists: true,
        target_los_clear: true,
        weapon_range_milli: 100_000,
        path_distance_milli: 0,
        close_combat_distance_milli: 1_200,
        fire_interval_ms: 200,
        threaten_refill_ms: 20_000,
        attack_index_choice: 0,
        attack_animation_count: 2,
        recoil_kick_v_mdeg: -1_000,
        recoil_kick_h_mdeg: 500,
    }
}

fn base_state() -> BehaviorState {
    BehaviorState {
        target: None,
        threaten_timeout_ms: 10_000,
        threaten_in_progress: false,
        fire_timer_ms: 0,
        v_recoil: SmoothAngle { angle: 0, target: 0, speed: 1_000 },
        h_recoil: SmoothAngle { angle: 0, target: 0, speed: 1_000 },
    }
}

fn ctx_with(inputs: BehaviorInputs, state: BehaviorState) -> BehaviorContext {
    BehaviorContext { inputs, state, out: BehaviorOutputs::fresh() }
}

#[test]
fn t_sequence_stops_at_failure() {
    // Leaves: NeedsThreatenTarget fails (timeout > 0) at position 1; the
    // leaf after it must not be evaluated.
    let tree = BehaviorTree {
        nodes: vec![
            BtNode::Leaf { action: Action::IsDead },
            BtNode::Leaf { action: Action::NeedsThreatenTarget },
            BtNode::Leaf { action: Action::StayDead },
            BtNode::Composite { kind: NodeKind::Sequence, children: vec![0, 1, 2] },
        ],
        entry: 3,
    };
    let mut inputs = base_inputs();
    inputs.health_mhp = 0; // IsDead succeeds
    let mut ctx = ctx_with(inputs, base_state()); // timeout > 0: NeedsThreaten fails
    let status = tick_tree(&tree, &mut ctx);
    assert_eq!(status, Status::Failure);
    // Only leaves 0 and 1 ran; leaf 2 was skipped.
    assert_eq!(ctx.out.ticked_leaves, vec![0, 1]);
    assert!(!ctx.out.stand_still);
}

#[test]
fn t_sequence_stops_at_running() {
    let tree = BehaviorTree {
        nodes: vec![
            BtNode::Leaf { action: Action::IsDead },
            BtNode::Leaf { action: Action::StayDead },
            BtNode::Leaf { action: Action::NeedsThreatenTarget },
            BtNode::Composite { kind: NodeKind::Sequence, children: vec![0, 1, 2] },
        ],
        entry: 3,
    };
    let mut inputs = base_inputs();
    inputs.health_mhp = -1;
    let mut ctx = ctx_with(inputs, base_state());
    let status = tick_tree(&tree, &mut ctx);
    assert_eq!(status, Status::Running);
    assert_eq!(ctx.out.ticked_leaves, vec![0, 1]);
}

#[test]
fn t_sequence_all_succeed() {
    let tree = BehaviorTree {
        nodes: vec![
            BtNode::Leaf { action: Action::IsDead },
            BtNode::Leaf { action: Action::IsDead },
            BtNode::Composite { kind: NodeKind::Sequence, children: vec![0, 1] },
        ],
        entry: 2,
    };
    let mut inputs = base_inputs();
    inputs.health_mhp = 0;
    let mut ctx = ctx_with(inputs, base_state());
    let status = tick_tree(&tree, &mut ctx);
    assert_eq!(status, Status::Success);
    assert_eq!(ctx.out.ticked_leaves, vec![0, 1]);
}

#[test]
fn t_selector_returns_first_non_failure() {
    // IsDead fails (alive); NeedsThreatenTarget succeeds (timeout 0); the
    // third leaf is skipped.
    let tree = BehaviorTree {
        nodes: vec![
            BtNode::Leaf { action: Action::IsDead },
            BtNode::Leaf { action: Action::NeedsThreatenTarget },
            BtNode::Leaf { action: Action::StayDead },
            BtNode::Composite { kind: NodeKind::Selector, children: vec![0, 1, 2] },
        ],
        entry: 3,
    };
    let mut state = base_state();
    state.threaten_timeout_ms = 0;
    let mut ctx = ctx_with(base_inputs(), state);
    let status = tick_tree(&tree, &mut ctx);
    assert_eq!(status, Status::Success);
    assert_eq!(ctx.out.ticked_leaves, vec![0, 1]);
    assert!(!ctx.out.stand_still);
}

#[test]
fn t_selector_all_fail() {
    let tree = BehaviorTree {
        nodes: vec![
            BtNode::Leaf { action: Action::IsDead },
            BtNode::Leaf { action: Action::NeedsThreatenTarget },
            BtNode::Composite { kind: NodeKind::Selector, children: vec![0, 1] },
        ],
        entry: 2,
    };
    let mut ctx = ctx_with(base_inputs(), base_state());
    let status = tick_tree(&tree, &mut ctx);
    assert_eq!(status, Status::Failure);
    assert_eq!(ctx.out.ticked_leaves, vec![0, 1]);
}

#[test]
fn t_find_target_picks_nearest_eligible() {
    let tree = BehaviorTree {
        nodes: vec![BtNode::Leaf { action: Action::FindTarget }],
        entry: 0,
    };
    let mut inputs = base_inputs();
    inputs.candidates = vec![
        // Dead: skipped.
        Candidate {
            handle: 1,
            kind: 2,
            is_player: false,
            health_mhp: 0,
            position: Vec3i { x: 100, y: 0, z: 0 },
            in_line_of_sight: true,
        },
        // Out of sight: skipped.
        Candidate {
            handle: 2,
            kind: 2,
            is_player: false,
            health_mhp: 50_000,
            position: Vec3i { x: 200, y: 0, z: 0 },
            in_line_of_sight: false,
        },
        // Eligible, farther.
        Candidate {
            handle: 3,
            kind: 2,
            is_player: false,
            health_mhp: 50_000,
            position: Vec3i { x: 9_000, y: 0, z: 0 },
            in_line_of_sight: true,
        },
        // Eligible, nearest.
        Candidate {
            handle: 4,
            kind: 2,
            is_player: true,
            health_mhp: 50_000,
            position: Vec3i { x: 3_000, y: 0, z: 0 },
            in_line_of_sight: true,
        },
    ];
    let mut ctx = ctx_with(inputs, base_state());
    let status = tick_tree(&tree, &mut ctx);
    assert_eq!(status, Status::Success);
    let t = ctx.state.target.expect("target set");
    assert_eq!(t.handle, 4);
    assert_eq!(t.position, Vec3i { x: 3_000, y: 0, z: 0 });
}

#[test]
fn t_find_target_hostility_player_only() {
    let tree = BehaviorTree {
        nodes: vec![BtNode::Leaf { action: Action::FindTarget }],
        entry: 0,
    };
    let mut inputs = base_inputs();
    inputs.hostility = BotHostility::Player;
    inputs.candidates = vec![
        // A monster, nearest, but not a player: never chosen.
        Candidate {
            handle: 1,
            kind: 2,
            is_player: false,
            health_mhp: 50_000,
            position: Vec3i { x: 100, y: 0, z: 0 },
            in_line_of_sight: true,
        },
        Candidate {
            handle: 2,
            kind: 0,
            is_player: true,
            health_mhp: 50_000,
            position: Vec3i { x: 8_000, y: 0, z: 0 },
            in_line_of_sight: true,
        },
    ];
    let mut ctx = ctx_with(inputs, base_state());
    let status = tick_tree(&tree, &mut ctx);
    assert_eq!(status, Status::Success);
    assert_eq!(ctx.state.target.unwrap().handle, 2);
}

#[test]
fn t_find_target_none_fails_and_keeps_target() {
    let tree = BehaviorTree {
        nodes: vec![BtNode::Leaf { action: Action::FindTarget }],
        entry: 0,
    };
    let mut ctx = ctx_with(base_inputs(), base_state());
    let status = tick_tree(&tree, &mut ctx);
    assert_eq!(status, Status::Failure);
    assert!(ctx.state.target.is_none());
}
