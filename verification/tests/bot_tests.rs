use bot_core::bot::{bot_tick, bot_tick_with, BotAgent};
use bot_core::context::{BehaviorInputs, BotHostility, Candidate};
use bot_core::vecmath::Vec3i;
use bot_core::Status;

fn base_inputs() -> BehaviorInputs {
    BehaviorInputs {
        self_position: Vec3i { x: 0, y: 0, z: 0 },
        self_kind: 1,
        health_mhp: 100_000,
        hostility: BotHostility::Everyone,
        candidates: vec![],
        upper_layer_available: true,
        upper_layer_in_threaten: false,
        target_exists: true,
        target_los_clear: true,
        weapon_range_milli: 100_000,
        path_distance_milli: 0,
        close_combat_distance_milli: 1_200,
        fire_interval_ms: 200,
        threaten_refill_ms: 20_000,
        attack_index_choice: 0,
        attack_animation_count: 2,
        recoil_kick_v_mdeg: -1_000,
        recoil_kick_h_mdeg: 500,
    }
}

fn enemy(handle: u64, x: i64) -> Candidate {
    Candidate {
        handle,
        kind: 2,
        is_player: true,
        health_mhp: 50_000,
        position: Vec3i { x, y: 0, z: 0 },
        in_line_of_sight: true,
    }
}

#[test]
fn t_dead_bot_stays_down() {
    // An agent with no health takes the dead branch: it reports running,
    // asks for no movement or attack, and only parks the body.
    let mut agent = BotAgent::new(1_200, 10_000);
    let mut inputs = base_inputs();
    inputs.health_mhp = 0;
    inputs.candidates = vec![enemy(9, 2_000)];
    let out = bot_tick(&mut agent, inputs, 16);
    assert_eq!(out.status, Status::Running);
    assert!(out.sm_input.dead);
    assert!(!out.sm_input.walk);
    assert!(!out.sm_input.attack);
    assert!(!out.sm_input.aim);
    assert!(!out.sm_input.scream);
    assert!(!out.outputs.is_moving);
    assert!(out.outputs.move_target.is_none());
    assert!(out.outputs.aim_target.is_none());
    assert!(out.outputs.shoot_at.is_none());
    assert!(out.outputs.stand_still);
    // Exactly the two leaves of the dead branch were evaluated.
    assert_eq!(out.outputs.ticked_leaves, vec![0, 1]);
    // No combat branch ran: the target is still unset.
    assert!(agent.state.target.is_none());
}

#[test]
fn t_threaten_cycle_resets_timeout() {
    // With the cool-down spent, the bot screams, holds the scream while the
    // animation layer plays it, and on leaving the state draws a fresh
    // cool-down in [20, 60) seconds.
    let mut agent = BotAgent::new(1_200, 10_000);
    agent.state.threaten_timeout_ms = 0;
    let mut inputs = base_inputs();
    inputs.candidates = vec![enemy(9, 2_000)];

    // Not yet in the threaten state: the bot asks to scream.
    let out1 = bot_tick(&mut agent, inputs.clone(), 0);
    assert_eq!(out1.status, Status::Running);
    assert!(out1.sm_input.scream);

    // The layer now plays the threaten state.
    inputs.upper_layer_in_threaten = true;
    let out2 = bot_tick(&mut agent, inputs.clone(), 0);
    assert_eq!(out2.status, Status::Running);
    assert!(out2.outputs.stand_still);
    assert!(agent.state.threaten_in_progress);

    // The layer has left the threaten state: success, cool-down refilled.
    inputs.upper_layer_in_threaten = false;
    let out3 = bot_tick(&mut agent, inputs, 0);
    assert_eq!(out3.status, Status::Success);
    assert!(!agent.state.threaten_in_progress);
    assert!(
        agent.state.threaten_timeout_ms >= 20_000 && agent.state.threaten_timeout_ms < 60_000,
        "timeout {} out of range",
        agent.state.threaten_timeout_ms
    );
}

#[test]
fn t_shoot_branch_fires() {
    let mut agent = BotAgent::new(1_200, 10_000);
    agent.state.threaten_timeout_ms = 30_000; // threaten branch stays quiet
    agent.state.fire_timer_ms = 0;
    let mut inputs = base_inputs();
    inputs.candidates = vec![enemy(9, 2_000)];
    inputs.path_distance_milli = 3_000; // within the 4-unit approach distance
    let out = bot_tick(&mut agent, inputs, 16);
    assert_eq!(out.status, Status::Success);
    assert!(out.sm_input.aim);
    assert_eq!(out.outputs.shoot_at, Some(Vec3i { x: 2_000, y: 0, z: 0 }));
    assert_eq!(out.outputs.aim_target, Some(Vec3i { x: 2_000, y: 0, z: 0 }));
    // The fire timer was reset to the interval and then advanced by dt.
    assert_eq!(agent.state.fire_timer_ms, 200 - 16);
    // Recoil targets took the configured kick.
    assert_eq!(agent.state.v_recoil.target, -1_000);
    assert_eq!(agent.state.h_recoil.target, 500);
}

#[test]
fn t_move_to_target_runs_while_far() {
    let mut agent = BotAgent::new(1_200, 10_000);
    agent.state.threaten_timeout_ms = 30_000;
    let mut inputs = base_inputs();
    inputs.candidates = vec![enemy(9, 50_000)];
    inputs.path_distance_milli = 20_000; // farther than the approach distance
    let out = bot_tick(&mut agent, inputs, 16);
    assert_eq!(out.status, Status::Running);
    assert!(out.sm_input.walk);
    assert!(out.outputs.is_moving);
    assert_eq!(out.outputs.move_target, Some(Vec3i { x: 50_000, y: 0, z: 0 }));
    assert!(out.outputs.shoot_at.is_none());
}

#[test]
fn t_melee_fallback_when_no_clear_shot() {
    let mut agent = BotAgent::new(1_200, 10_000);
    agent.state.threaten_timeout_ms = 30_000;
    let mut inputs = base_inputs();
    inputs.target_los_clear = false; // no clear shot: ranged branch fails
    inputs.candidates = vec![enemy(9, 1_000)];
    inputs.path_distance_milli = 500; // close enough to melee
    let out = bot_tick(&mut agent, inputs, 16);
    assert_eq!(out.status, Status::Running);
    assert!(out.sm_input.attack);
    assert!(out.outputs.is_attacking);
    assert!(out.outputs.attack_animation_index < 2);
    assert!(out.outputs.shoot_at.is_none());
}

#[test]
fn t_badly_damaged_flag_follows_restoration_time() {
    let mut agent = BotAgent::new(1_200, 10_000);
    agent.restoration_time_ms = 800;
    let mut inputs = base_inputs();
    inputs.candidates = vec![enemy(9, 2_000)];
    let out = bot_tick(&mut agent, inputs.clone(), 16);
    assert!(out.sm_input.badly_damaged);
    assert_eq!(agent.restoration_time_ms, 800 - 16);
    agent.restoration_time_ms = 0;
    let out2 = bot_tick(&mut agent, inputs, 16);
    assert!(!out2.sm_input.badly_damaged);
}

#[test]
fn t_recoil_accumulators_approach_kick() {
    // After a shot set the recoil targets, the smoothed angles move toward
    // them by at most speed * dt each tick.
    let mut agent = BotAgent::new(1_200, 10_000);
    agent.state.threaten_timeout_ms = 30_000;
    agent.state.fire_timer_ms = 0;
    let mut inputs = base_inputs();
    inputs.recoil_kick_v_mdeg = -5_000;
    inputs.candidates = vec![enemy(9, 2_000)];
    inputs.path_distance_milli = 3_000;
    // dt 1000 ms at 10_000 mdeg/s: the full kick is reached in one tick of
    // the recoil update that follows the shot.
    let out = bot_tick_with(&mut agent, inputs, 1_000);
    assert_eq!(out.recoil_v_mdeg, -5_000);
    assert_eq!(agent.state.v_recoil.angle, -5_000);
}

#[test]
fn t_target_cleared_when_entity_removed() {
    let mut agent = BotAgent::new(1_200, 10_000);
    agent.set_target(42, Vec3i { x: 1_000, y: 0, z: 0 });
    assert_eq!(agent.state.target.unwrap().handle, 42);
    // Some other entity leaving changes nothing.
    agent.on_actor_removed(7);
    assert!(agent.state.target.is_some());
    // The referenced entity leaving clears the slot.
    agent.on_actor_removed(42);
    assert!(agent.state.target.is_none());
}
