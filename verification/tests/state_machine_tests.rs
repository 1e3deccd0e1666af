use bot_core::context::Target;
use bot_core::state_machine::{
    apply, collect_events_max_weight, handle_events, AnimEvent, AnimParam, AnimTrack, AnimValue,
    BotCommand, StateMachine, StateMachineInput,
};
use bot_core::vecmath::Vec3i;

fn names(list: &[&str]) -> Vec<String> {
    list.iter().map(|s| s.to_string()).collect()
}

#[test]
fn t_state_machine_resolves_all_four() {
    let sm = StateMachine::new(&names(&["Idle", "Aim", "MeleeAttack", "Threaten", "Dead"]))
        .expect("all states present");
    assert_eq!(sm.aim_state, 1);
    assert_eq!(sm.attack_state, 2);
    assert_eq!(sm.threaten_state, 3);
    assert_eq!(sm.dead_state, 4);
    assert!(sm.is_in_aim_state(1));
    assert!(!sm.is_in_aim_state(2));
    assert!(sm.is_in_threaten_state(3));
}

#[test]
fn t_state_machine_missing_state_fails_construction() {
    // The rig lacks the threaten state: the adapter cannot be built.
    assert!(StateMachine::new(&names(&["Aim", "MeleeAttack", "Dead"])).is_none());
    // An empty rig certainly fails.
    assert!(StateMachine::new(&names(&[])).is_none());
}

#[test]
fn t_state_machine_first_match_wins() {
    let sm = StateMachine::new(&names(&["Aim", "Aim", "MeleeAttack", "Threaten", "Dead"]))
        .expect("states present");
    assert_eq!(sm.aim_state, 0);
}

#[test]
fn t_apply_pushes_seven_parameters() {
    let input = StateMachineInput {
        walk: true,
        scream: false,
        dead: false,
        movement_speed_factor_milli: 1_000,
        attack: true,
        attack_animation_index: 1,
        aim: false,
        badly_damaged: true,
    };
    let params = apply(&input);
    assert_eq!(
        params,
        vec![
            (AnimParam::Attack, AnimValue::Rule(true)),
            (AnimParam::AttackAnimationIndex, AnimValue::Index(1)),
            (AnimParam::Walk, AnimValue::Rule(true)),
            (AnimParam::Threaten, AnimValue::Rule(false)),
            (AnimParam::Aim, AnimValue::Rule(false)),
            (AnimParam::Dead, AnimValue::Rule(false)),
            (AnimParam::WasHit, AnimValue::Rule(true)),
        ]
    );
}

#[test]
fn t_max_weight_track_wins() {
    let tracks = vec![
        AnimTrack { weight_milli: 300, events: vec![AnimEvent::Footstep] },
        AnimTrack { weight_milli: 700, events: vec![AnimEvent::Hit, AnimEvent::Other] },
        AnimTrack { weight_milli: 500, events: vec![AnimEvent::Dead] },
    ];
    assert_eq!(
        collect_events_max_weight(&tracks),
        vec![AnimEvent::Hit, AnimEvent::Other]
    );
}

#[test]
fn t_max_weight_tie_takes_first() {
    let tracks = vec![
        AnimTrack { weight_milli: 700, events: vec![AnimEvent::Footstep] },
        AnimTrack { weight_milli: 700, events: vec![AnimEvent::Dead] },
    ];
    assert_eq!(collect_events_max_weight(&tracks), vec![AnimEvent::Footstep]);
    let none: Vec<AnimTrack> = vec![];
    assert_eq!(collect_events_max_weight(&none), vec![]);
}

#[test]
fn t_hit_event_deals_melee_damage() {
    let target = Some(Target { handle: 42, position: Vec3i { x: 0, y: 0, z: 0 } });
    let cmds = handle_events(
        &vec![AnimEvent::Footstep],
        &vec![AnimEvent::Hit],
        target,
        true,
    );
    assert_eq!(
        cmds,
        vec![
            BotCommand::FootstepCheck,
            BotCommand::DamageTarget { target: 42, amount_mhp: 20_000, is_melee: true },
            BotCommand::PlayPunchSound,
            BotCommand::PlayAttackSound,
        ]
    );
}

#[test]
fn t_hit_event_without_melee_only_sounds() {
    let target = Some(Target { handle: 42, position: Vec3i { x: 0, y: 0, z: 0 } });
    let cmds = handle_events(&vec![], &vec![AnimEvent::Hit], target, false);
    assert_eq!(cmds, vec![BotCommand::PlayAttackSound]);
}

#[test]
fn t_hit_event_without_target_is_silent() {
    let cmds = handle_events(&vec![], &vec![AnimEvent::Hit], None, true);
    assert_eq!(cmds, vec![]);
}

#[test]
fn t_dead_event_activates_ragdoll() {
    let cmds = handle_events(&vec![], &vec![AnimEvent::Dead, AnimEvent::Other], None, false);
    assert_eq!(cmds, vec![BotCommand::ActivateRagdoll]);
}
