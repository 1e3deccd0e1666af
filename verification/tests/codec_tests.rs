use bot_core::angle::SmoothAngle;
use bot_core::bot::{bot_tick_with, BotAgent};
use bot_core::codec::{decode_agent_state, encode_agent_state};
use bot_core::context::{BehaviorInputs, BehaviorState, BotHostility, Candidate, Target};
use bot_core::impact::ImpactEntry;
use bot_core::vecmath::Vec3i;

fn sample_state() -> BehaviorState {
    BehaviorState {
        target: Some(Target { handle: 42, position: Vec3i { x: -5_000, y: 200, z: 3 } }),
        threaten_timeout_ms: -250,
        threaten_in_progress: true,
        fire_timer_ms: 120,
        v_recoil: SmoothAngle { angle: -1_500, target: 0, speed: 9_000 },
        h_recoil: SmoothAngle { angle: 700, target: -700, speed: 9_000 },
    }
}

fn sample_impacts() -> Vec<(u64, ImpactEntry)> {
    vec![
        (7, ImpactEntry { axis: Vec3i { x: 0, y: 0, z: 1_000_000 }, k_milli: 250 }),
        (9, ImpactEntry { axis: Vec3i { x: -1, y: 2, z: -3 }, k_milli: 999 }),
    ]
}

#[test]
fn t_codec_round_trip() {
    let state = sample_state();
    let impacts = sample_impacts();
    let words = encode_agent_state(&state, 800, &impacts);
    let (d_state, d_restoration, d_impacts) =
        decode_agent_state(&words).expect("well-formed encoding");
    assert_eq!(d_state, state);
    assert_eq!(d_restoration, 800);
    assert_eq!(d_impacts, impacts);
}

#[test]
fn t_codec_round_trip_no_target_no_impacts() {
    let mut state = sample_state();
    state.target = None;
    state.threaten_in_progress = false;
    let words = encode_agent_state(&state, 0, &vec![]);
    let (d_state, d_restoration, d_impacts) =
        decode_agent_state(&words).expect("well-formed encoding");
    assert_eq!(d_state, state);
    assert_eq!(d_restoration, 0);
    assert!(d_impacts.is_empty());
}

#[test]
fn t_codec_rejects_malformed() {
    // Too short.
    assert!(decode_agent_state(&vec![0; 10]).is_none());
    // A bad target tag.
    let mut words = encode_agent_state(&sample_state(), 0, &vec![]);
    words[0] = 7;
    assert!(decode_agent_state(&words).is_none());
    // A bad boolean word.
    let mut words2 = encode_agent_state(&sample_state(), 0, &vec![]);
    words2[6] = 2;
    assert!(decode_agent_state(&words2).is_none());
    // A length that does not match the entry count.
    let mut words3 = encode_agent_state(&sample_state(), 0, &sample_impacts());
    words3.pop();
    assert!(decode_agent_state(&words3).is_none());
}

#[test]
fn t_resumed_agent_ticks_identically() {
    // Serialize an agent's behavior-relevant state, restore it into a second
    // agent, and drive both through the same input trace: the outputs agree
    // tick for tick.
    let base_inputs = BehaviorInputs {
        self_position: Vec3i { x: 0, y: 0, z: 0 },
        self_kind: 1,
        health_mhp: 100_000,
        hostility: BotHostility::Everyone,
        candidates: vec![Candidate {
            handle: 42,
            kind: 2,
            is_player: true,
            health_mhp: 50_000,
            position: Vec3i { x: 2_000, y: 0, z: 0 },
            in_line_of_sight: true,
        }],
        upper_layer_available: true,
        upper_layer_in_threaten: false,
        target_exists: true,
        target_los_clear: true,
        weapon_range_milli: 100_000,
        path_distance_milli: 3_000,
        close_combat_distance_milli: 1_200,
        fire_interval_ms: 200,
        threaten_refill_ms: 20_000,
        attack_index_choice: 0,
        attack_animation_count: 2,
        recoil_kick_v_mdeg: -1_000,
        recoil_kick_h_mdeg: 500,
    };

    let mut saved = BotAgent::new(1_200, 10_000);
    saved.state = sample_state();
    saved.state.threaten_timeout_ms = 5_000;
    saved.restoration_time_ms = 300;

    let words = encode_agent_state(&saved.state, saved.restoration_time_ms, &vec![]);
    let (d_state, d_restoration, _) = decode_agent_state(&words).expect("well-formed encoding");
    let mut resumed = BotAgent::new(1_200, 10_000);
    resumed.state = d_state;
    resumed.restoration_time_ms = d_restoration;

    let trace: [(i64, bool); 4] = [(16, false), (16, true), (33, true), (16, false)];
    for (dt, in_threaten) in trace.iter() {
        let mut inputs = base_inputs.clone();
        inputs.upper_layer_in_threaten = *in_threaten;
        let a = bot_tick_with(&mut saved, inputs.clone(), *dt);
        let b = bot_tick_with(&mut resumed, inputs, *dt);
        assert_eq!(a.status, b.status);
        assert_eq!(a.sm_input, b.sm_input);
        assert_eq!(a.outputs.is_moving, b.outputs.is_moving);
        assert_eq!(a.outputs.shoot_at, b.outputs.shoot_at);
        assert_eq!(a.outputs.move_target, b.outputs.move_target);
        assert_eq!(a.outputs.ticked_leaves, b.outputs.ticked_leaves);
        assert_eq!(a.recoil_v_mdeg, b.recoil_v_mdeg);
        assert_eq!(a.recoil_h_mdeg, b.recoil_h_mdeg);
        assert_eq!(saved.state, resumed.state);
    }
}
