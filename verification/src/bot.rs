//! The bot agent: its fixed behavior tree, the state it keeps across ticks,
//! and the per-tick pipeline that runs the tree and prepares the animation
//! machine's input.

use vstd::prelude::*;
use crate::Status;
use crate::actions::{action_tick_spec, Action};
use crate::angle::SmoothAngle;
use crate::behavior::{
    lemma_composite_stops, nodes_view, run_prefix, tick_node_spec, tick_tree, BehaviorTree, BtNode,
    BtNodeView, NodeKind,
};
use crate::context::{
    BehaviorContext, BehaviorInputs, BehaviorOutputs, BehaviorState, CtxView, InputsView,
    OutputsView, Target, TIMER_BOUND_MS,
};
use crate::state_machine::StateMachineInput;
use crate::vecmath::Vec3i;

verus! {

/// How close the bot walks toward its target before shooting, milli-units.
pub const RANGED_APPROACH_DISTANCE_MILLI: i64 = 4_000;

/// Shortest threaten cool-down drawn after a scream, milliseconds.
pub const THREATEN_REFILL_MIN_MS: u64 = 20_000;

/// One past the longest threaten cool-down drawn after a scream.
pub const THREATEN_REFILL_MAX_MS: u64 = 60_000;

/// The bot's decision tree, as node views. Children sit below their parents;
/// the entry node is the last. The layout mirrors the tactical priorities:
/// the dead branch always wins; a target must be acquired before any combat
/// branch; threatening preempts shooting, and melee is the fallback when no
/// clear shot exists.
pub open spec fn bot_tree_view(close_combat_distance_milli: i64) -> Seq<BtNodeView> {
    seq![
        BtNodeView::Leaf { action: Action::IsDead },
        BtNodeView::Leaf { action: Action::StayDead },
        BtNodeView::Composite { kind: NodeKind::Sequence, children: seq![0usize, 1usize] },
        BtNodeView::Leaf { action: Action::FindTarget },
        BtNodeView::Leaf { action: Action::AimOnTarget },
        BtNodeView::Leaf { action: Action::NeedsThreatenTarget },
        BtNodeView::Leaf { action: Action::ThreatenTarget },
        BtNodeView::Composite { kind: NodeKind::Sequence, children: seq![5usize, 6usize] },
        BtNodeView::Leaf { action: Action::CanShootTarget },
        BtNodeView::Leaf {
            action: Action::MoveToTarget { min_distance_milli: RANGED_APPROACH_DISTANCE_MILLI },
        },
        BtNodeView::Leaf { action: Action::ShootTarget },
        BtNodeView::Composite { kind: NodeKind::Sequence, children: seq![8usize, 9usize, 10usize] },
        BtNodeView::Leaf { action: Action::MoveToTarget { min_distance_milli: close_combat_distance_milli } },
        BtNodeView::Leaf { action: Action::CanMeleeAttack },
        BtNodeView::Leaf { action: Action::DoMeleeAttack },
        BtNodeView::Composite {
            kind: NodeKind::Sequence,
            children: seq![12usize, 13usize, 14usize],
        },
        BtNodeView::Composite { kind: NodeKind::Selector, children: seq![7usize, 11usize, 15usize] },
        BtNodeView::Composite { kind: NodeKind::Sequence, children: seq![4usize, 16usize] },
        BtNodeView::Composite { kind: NodeKind::Sequence, children: seq![3usize, 17usize] },
        BtNodeView::Composite { kind: NodeKind::Selector, children: seq![2usize, 18usize] },
    ]
}

/// Index of the entry node of the bot tree.
pub const BOT_TREE_ENTRY: usize = 19;

/// Build the bot's behavior tree.
pub fn build_bot_tree(close_combat_distance_milli: i64) -> (r: BehaviorTree)
    ensures
        r.wf(),
        r.entry == BOT_TREE_ENTRY,
        nodes_view(r.nodes@) == bot_tree_view(close_combat_distance_milli),
{
    let mut nodes: Vec<BtNode> = Vec::new();
    nodes.push(BtNode::Leaf { action: Action::IsDead });
    nodes.push(BtNode::Leaf { action: Action::StayDead });
    nodes.push(BtNode::Composite { kind: NodeKind::Sequence, children: vec![0usize, 1usize] });
    nodes.push(BtNode::Leaf { action: Action::FindTarget });
    nodes.push(BtNode::Leaf { action: Action::AimOnTarget });
    nodes.push(BtNode::Leaf { action: Action::NeedsThreatenTarget });
    nodes.push(BtNode::Leaf { action: Action::ThreatenTarget });
    nodes.push(BtNode::Composite { kind: NodeKind::Sequence, children: vec![5usize, 6usize] });
    nodes.push(BtNode::Leaf { action: Action::CanShootTarget });
    nodes.push(
        BtNode::Leaf {
            action: Action::MoveToTarget { min_distance_milli: RANGED_APPROACH_DISTANCE_MILLI },
        },
    );
    nodes.push(BtNode::Leaf { action: Action::ShootTarget });
    nodes.push(
        BtNode::Composite { kind: NodeKind::Sequence, children: vec![8usize, 9usize, 10usize] },
    );
    nodes.push(
        BtNode::Leaf {
            action: Action::MoveToTarget { min_distance_milli: close_combat_distance_milli },
        },
    );
    nodes.push(BtNode::Leaf { action: Action::CanMeleeAttack });
    nodes.push(BtNode::Leaf { action: Action::DoMeleeAttack });
    nodes.push(
        BtNode::Composite { kind: NodeKind::Sequence, children: vec![12usize, 13usize, 14usize] },
    );
    nodes.push(
        BtNode::Composite { kind: NodeKind::Selector, children: vec![7usize, 11usize, 15usize] },
    );
    nodes.push(BtNode::Composite { kind: NodeKind::Sequence, children: vec![4usize, 16usize] });
    nodes.push(BtNode::Composite { kind: NodeKind::Sequence, children: vec![3usize, 17usize] });
    nodes.push(BtNode::Composite { kind: NodeKind::Selector, children: vec![2usize, 18usize] });
    let r = BehaviorTree { nodes, entry: BOT_TREE_ENTRY };
    proof {
        let nv = nodes_view(r.nodes@);
        let tv = bot_tree_view(close_combat_distance_milli);
        assert forall|i: int| 0 <= i < nv.len() implies nv[i] == tv[i] by {
            assert(nv[i] == r.nodes@[i].view_node());
        }
        assert(nv =~= tv);
        assert forall|i: int| 0 <= i < nv.len() implies #[trigger] crate::behavior::node_wf(
            nv,
            i,
        ) by {
            lemma_bot_tree_node_wf(close_combat_distance_milli, i);
        }
    }
    r
}

proof fn lemma_bot_tree_node_wf(close_combat_distance_milli: i64, i: int)
    requires
        0 <= i < bot_tree_view(close_combat_distance_milli).len(),
    ensures
        crate::behavior::node_wf(bot_tree_view(close_combat_distance_milli), i),
{
    let tv = bot_tree_view(close_combat_distance_milli);
    match tv[i] {
        BtNodeView::Composite { kind, children } => {
            assert forall|k: int| 0 <= k < children.len() implies (#[trigger] children[k])
                < i by {
                assert(children[k] == children[k]);
            }
        },
        BtNodeView::Leaf { .. } => {},
    }
}

/// Everything a bot carries between ticks.
#[derive(Clone, Debug)]
pub struct BotAgent {
    pub tree: BehaviorTree,
    pub state: BehaviorState,
    /// Time the bot still spends staggered after heavy damage, milliseconds.
    pub restoration_time_ms: i64,
    /// Tree parameter the agent was built with, milli-units.
    pub close_combat_distance_milli: i64,
}

impl BotAgent {
    pub open spec fn wf(self) -> bool {
        &&& self.tree.wf()
        &&& self.state.wf()
        &&& -TIMER_BOUND_MS <= self.restoration_time_ms <= TIMER_BOUND_MS
    }

    /// A freshly spawned bot: no target, ready to threaten, recoil at rest.
    pub fn new(close_combat_distance_milli: i64, recoil_speed_mdeg_per_s: i64) -> (r: BotAgent)
        requires
            0 <= recoil_speed_mdeg_per_s <= crate::angle::SPEED_BOUND_MDEG_PER_S,
        ensures
            r.wf(),
            r.tree.entry == BOT_TREE_ENTRY,
            nodes_view(r.tree.nodes@) == bot_tree_view(close_combat_distance_milli),
            r.state == initial_state(recoil_speed_mdeg_per_s),
            r.restoration_time_ms == 0,
    {
        BotAgent {
            tree: build_bot_tree(close_combat_distance_milli),
            state: BehaviorState {
                target: None,
                threaten_timeout_ms: 0,
                threaten_in_progress: false,
                fire_timer_ms: 0,
                v_recoil: SmoothAngle { angle: 0, target: 0, speed: recoil_speed_mdeg_per_s },
                h_recoil: SmoothAngle { angle: 0, target: 0, speed: recoil_speed_mdeg_per_s },
            },
            restoration_time_ms: 0,
            close_combat_distance_milli,
        }
    }
}

impl BotAgent {
    /// Remember an entity as the attack target.
    pub fn set_target(&mut self, handle: u64, position: Vec3i)
        requires
            old(self).wf(),
            position.in_bounds(),
        ensures
            final(self).wf(),
            final(self).state == (BehaviorState {
                target: Some(Target { handle, position }),
                ..old(self).state
            }),
            final(self).tree == old(self).tree,
            final(self).restoration_time_ms == old(self).restoration_time_ms,
    {
        self.state.target = Some(Target { handle, position });
    }

    /// Forget the target once the entity it referred to has left the scene;
    /// a target referring to anyone else stays.
    pub fn on_actor_removed(&mut self, handle: u64)
        requires
            old(self).wf(),
        ensures
            final(self).wf(),
            final(self).state == (BehaviorState {
                target: match old(self).state.target {
                    Some(t) => if t.handle == handle {
                        None
                    } else {
                        Some(t)
                    },
                    None => None,
                },
                ..old(self).state
            }),
            final(self).tree == old(self).tree,
    {
        if let Some(t) = self.state.target {
            if t.handle == handle {
                self.state.target = None;
            }
        }
    }
}

/// The starting persistent state of a bot.
pub open spec fn initial_state(recoil_speed_mdeg_per_s: i64) -> BehaviorState {
    BehaviorState {
        target: None,
        threaten_timeout_ms: 0,
        threaten_in_progress: false,
        fire_timer_ms: 0,
        v_recoil: SmoothAngle { angle: 0, target: 0, speed: recoil_speed_mdeg_per_s },
        h_recoil: SmoothAngle { angle: 0, target: 0, speed: recoil_speed_mdeg_per_s },
    }
}

/// `t - dt`, floored at the timer bound.
pub open spec fn sat_sub_spec(t: int, dt: int) -> int {
    if t - dt < -(TIMER_BOUND_MS as int) {
        -(TIMER_BOUND_MS as int)
    } else {
        t - dt
    }
}

pub fn sat_timer_sub(t: i64, dt: i64) -> (r: i64)
    requires
        -TIMER_BOUND_MS <= t <= TIMER_BOUND_MS,
        0 <= dt <= crate::angle::DT_BOUND_MS,
    ensures
        r == sat_sub_spec(t as int, dt as int),
        -TIMER_BOUND_MS <= r <= TIMER_BOUND_MS,
{
    let d: i64 = t - dt;
    if d < -TIMER_BOUND_MS {
        -TIMER_BOUND_MS
    } else {
        d
    }
}

/// The persistent state after the frame's timers have advanced.
pub open spec fn post_tick_state(s: BehaviorState, dt: int) -> BehaviorState {
    BehaviorState {
        threaten_timeout_ms: sat_sub_spec(s.threaten_timeout_ms as int, dt) as i64,
        fire_timer_ms: sat_sub_spec(s.fire_timer_ms as int, dt) as i64,
        v_recoil: s.v_recoil.update_spec(dt),
        h_recoil: s.h_recoil.update_spec(dt),
        ..s
    }
}

/// Everything one bot tick decides.
#[derive(Clone, Debug)]
pub struct BotTickOutput {
    /// What the tree reported.
    pub status: Status,
    /// The raw outputs of the tree, commands and trace included.
    pub outputs: BehaviorOutputs,
    /// The parameters to push into the animation blend machine.
    pub sm_input: StateMachineInput,
    /// Additional spine rotation from recoil, milli-degrees.
    pub recoil_v_mdeg: i64,
    /// Additional spine rotation from recoil, milli-degrees.
    pub recoil_h_mdeg: i64,
}

/// Ghost summary of one bot tick.
pub ghost struct BotTickResult {
    pub state: BehaviorState,
    pub restoration_time_ms: int,
    pub out: OutputsView,
    pub status: Status,
    pub sm_input: StateMachineInput,
}

/// The exact effect of one bot tick: run the tree on a fresh output record,
/// adopt the state it leaves, advance the timers and the recoil, and assemble
/// the animation machine's input from the outputs.
pub open spec fn bot_tick_spec(
    nodes: Seq<BtNodeView>,
    entry: int,
    state: BehaviorState,
    restoration_time_ms: int,
    inputs: InputsView,
    dt: int,
) -> BotTickResult {
    let c0 = CtxView { inputs, state, out: OutputsView::fresh() };
    let r = tick_node_spec(nodes, entry, c0);
    BotTickResult {
        state: post_tick_state(r.0.state, dt),
        restoration_time_ms: sat_sub_spec(restoration_time_ms, dt),
        out: r.0.out,
        status: r.1,
        sm_input: StateMachineInput {
            walk: r.0.out.is_moving,
            scream: r.0.out.is_screaming,
            dead: inputs.health_mhp <= 0,
            movement_speed_factor_milli: r.0.out.movement_speed_factor_milli as i64,
            attack: r.0.out.is_attacking,
            attack_animation_index: r.0.out.attack_animation_index,
            aim: r.0.out.is_aiming_weapon,
            badly_damaged: restoration_time_ms > 0,
        },
    }
}

/// One bot tick with every input given, the pre-drawn randomness included.
/// Verified for every value of those inputs.
pub fn bot_tick_with(agent: &mut BotAgent, inputs: BehaviorInputs, dt_ms: i64) -> (r: BotTickOutput)
    requires
        old(agent).wf(),
        inputs@.wf(),
        0 <= dt_ms <= crate::angle::DT_BOUND_MS,
    ensures
        final(agent).wf(),
        final(agent).tree == old(agent).tree,
        final(agent).close_combat_distance_milli == old(agent).close_combat_distance_milli,
        ({
            let br = bot_tick_spec(
                nodes_view(old(agent).tree.nodes@),
                old(agent).tree.entry as int,
                old(agent).state,
                old(agent).restoration_time_ms as int,
                inputs@,
                dt_ms as int,
            );
            &&& final(agent).state == br.state
            &&& final(agent).restoration_time_ms as int == br.restoration_time_ms
            &&& r.outputs@ == br.out
            &&& r.status == br.status
            &&& r.sm_input == br.sm_input
            &&& r.recoil_v_mdeg == br.state.v_recoil.angle
            &&& r.recoil_h_mdeg == br.state.h_recoil.angle
        }),
{
    let badly_damaged = agent.restoration_time_ms > 0;
    let dead = inputs.health_mhp <= 0;
    let mut ctx = BehaviorContext { inputs, state: agent.state, out: BehaviorOutputs::fresh() };
    let status = tick_tree(&agent.tree, &mut ctx);
    agent.state = ctx.state;
    agent.state.threaten_timeout_ms = sat_timer_sub(agent.state.threaten_timeout_ms, dt_ms);
    agent.state.fire_timer_ms = sat_timer_sub(agent.state.fire_timer_ms, dt_ms);
    agent.state.v_recoil.update(dt_ms);
    agent.state.h_recoil.update(dt_ms);
    agent.restoration_time_ms = sat_timer_sub(agent.restoration_time_ms, dt_ms);
    let sm_input = StateMachineInput {
        walk: ctx.out.is_moving,
        scream: ctx.out.is_screaming,
        dead,
        movement_speed_factor_milli: ctx.out.movement_speed_factor_milli,
        attack: ctx.out.is_attacking,
        attack_animation_index: ctx.out.attack_animation_index,
        aim: ctx.out.is_aiming_weapon,
        badly_damaged,
    };
    let recoil_v_mdeg = agent.state.v_recoil.angle;
    let recoil_h_mdeg = agent.state.h_recoil.angle;
    BotTickOutput { status, outputs: ctx.out, sm_input, recoil_v_mdeg, recoil_h_mdeg }
}

/// The inputs with the tick's random draws substituted.
pub open spec fn patched_inputs(v: InputsView, refill: int, choice: u32) -> InputsView {
    InputsView { threaten_refill_ms: refill, attack_index_choice: choice, ..v }
}

/// One bot tick as the host calls it: the threaten cool-down refill and the
/// attack animation choice are drawn here, so the given values of those two
/// fields are ignored. Whatever is drawn, the tick behaves as `bot_tick_spec`
/// on the patched inputs.
pub fn bot_tick(agent: &mut BotAgent, inputs: BehaviorInputs, dt_ms: i64) -> (r: BotTickOutput)
    requires
        old(agent).wf(),
        inputs@.wf(),
        0 <= dt_ms <= crate::angle::DT_BOUND_MS,
    ensures
        final(agent).wf(),
        final(agent).tree == old(agent).tree,
        exists|refill: int, choice: u32|
            #![trigger patched_inputs(inputs@, refill, choice)]
            {
                &&& THREATEN_REFILL_MIN_MS as int <= refill < THREATEN_REFILL_MAX_MS as int
                &&& choice < inputs@.attack_animation_count
                &&& {
                    let br = bot_tick_spec(
                        nodes_view(old(agent).tree.nodes@),
                        old(agent).tree.entry as int,
                        old(agent).state,
                        old(agent).restoration_time_ms as int,
                        patched_inputs(inputs@, refill, choice),
                        dt_ms as int,
                    );
                    &&& final(agent).state == br.state
                    &&& final(agent).restoration_time_ms as int == br.restoration_time_ms
                    &&& r.outputs@ == br.out
                    &&& r.status == br.status
                    &&& r.sm_input == br.sm_input
                }
            },
{
    let ghost orig = inputs@;
    let mut inputs = inputs;
    let refill = crate::rng::random_u64_in(THREATEN_REFILL_MIN_MS, THREATEN_REFILL_MAX_MS);
    let choice = crate::rng::random_u64_in(0, inputs.attack_animation_count as u64);
    inputs.threaten_refill_ms = refill as i64;
    inputs.attack_index_choice = choice as u32;
    let ghost grefill = inputs@.threaten_refill_ms;
    let ghost gchoice = inputs@.attack_index_choice;
    let ghost patched = inputs@;
    let r = bot_tick_with(agent, inputs, dt_ms);
    proof {
        assert(THREATEN_REFILL_MIN_MS as int <= grefill < THREATEN_REFILL_MAX_MS as int);
        assert(patched == patched_inputs(orig, grefill, gchoice));
    }
    r
}

/// Whether an event with the given per-mill probability occurred this draw.
/// A probability of zero never occurs; a probability at or above one is
/// certain; anything between depends on the draw.
pub fn is_probability_event_occurred(probability_permill: u32) -> (r: bool)
    ensures
        probability_permill == 0 ==> !r,
        probability_permill >= 1000 ==> r,
{
    let clamped: u64 = if probability_permill > 1000 {
        1000
    } else {
        probability_permill as u64
    };
    if clamped == 0 {
        return false;
    }
    let draw = crate::rng::random_u64_in(0, 1000);
    draw < clamped
}

/// Where a damaging hit landed on the body.
#[derive(Clone, Copy, Debug, PartialEq, Eq, Structural)]
pub struct HitboxHit {
    pub is_head: bool,
    /// The bone the hitbox hangs from.
    pub bone: u64,
}

/// What a bot does in reaction to one damage message, beyond the damage
/// itself (which the character layer applies).
#[derive(Clone, Copy, Debug, PartialEq, Eq, Structural)]
pub struct DamageReaction {
    /// A critical head shot landed: the head bursts.
    pub blow_up_head: bool,
    /// Extra damage the critical head shot deals.
    pub extra_damage_mhp: i64,
    /// The hit was heavy enough to stagger the bot for a moment.
    pub staggered: bool,
    pub play_pain_sound: bool,
}

/// How long a heavy hit staggers the bot, milliseconds.
pub const STAGGER_TIME_MS: i64 = 800;

/// Health lost since the last grunt that makes the bot grunt again.
pub const PAIN_SOUND_THRESHOLD_MHP: i64 = 20_000;

/// React to one damage message: remember the attacker as the target, resolve
/// a possible critical head shot (its chance decides; a zero chance never
/// bursts the head, a certain one always does), register the body flinch,
/// and stagger when a big chunk of health was just lost.
pub fn bot_on_damage(
    agent: &mut BotAgent,
    impacts: &mut crate::impact::BodyImpactHandler,
    dealer: Option<Target>,
    amount_mhp: i64,
    hitbox: Option<HitboxHit>,
    impact_local: Option<(Vec3i, Vec3i)>,
    critical_probability_permill: u32,
    last_health_mhp: i64,
    health_mhp: i64,
) -> (r: DamageReaction)
    requires
        old(agent).wf(),
        old(impacts).wf(),
        0 <= amount_mhp <= 1_000_000_000,
        -TIMER_BOUND_MS <= last_health_mhp <= TIMER_BOUND_MS,
        -TIMER_BOUND_MS <= health_mhp <= TIMER_BOUND_MS,
        match dealer {
            Some(t) => t.position.in_bounds(),
            None => true,
        },
        match impact_local {
            Some((p, d)) => p.in_bounds() && d.in_bounds(),
            None => true,
        },
    ensures
        final(agent).wf(),
        final(impacts).wf(),
        // The attacker becomes the target; everything else of the persistent
        // state stays.
        final(agent).state == (BehaviorState {
            target: if dealer is Some {
                dealer
            } else {
                old(agent).state.target
            },
            ..old(agent).state
        }),
        final(agent).tree == old(agent).tree,
        // A critical head shot needs a head hitbox; its chance decides.
        r.blow_up_head ==> hitbox is Some && hitbox->Some_0.is_head,
        critical_probability_permill == 0 ==> !r.blow_up_head,
        (hitbox is Some && hitbox->Some_0.is_head && critical_probability_permill >= 1000)
            ==> r.blow_up_head,
        r.extra_damage_mhp as int == if r.blow_up_head {
            amount_mhp * 1000
        } else {
            0int
        },
        // The flinch is registered on the hit bone, when the hit gave one.
        final(impacts).entries@ == match (hitbox, impact_local) {
            (Some(hb), Some((p, d))) => crate::impact::handle_impact_spec(
                old(impacts).entries@,
                hb.bone,
                p,
                d,
            ),
            _ => old(impacts).entries@,
        },
        // A heavy hit staggers a living bot and makes it grunt.
        r.staggered == (last_health_mhp - health_mhp > PAIN_SOUND_THRESHOLD_MHP && health_mhp > 0),
        r.play_pain_sound == r.staggered,
        final(agent).restoration_time_ms == if r.staggered {
            STAGGER_TIME_MS as int
        } else {
            old(agent).restoration_time_ms as int
        },
{
    if let Some(t) = dealer {
        agent.state.target = Some(t);
    }
    let mut blow_up_head = false;
    let mut extra_damage_mhp: i64 = 0;
    if let Some(hb) = hitbox {
        if hb.is_head && is_probability_event_occurred(critical_probability_permill) {
            blow_up_head = true;
            extra_damage_mhp = amount_mhp * 1000;
        }
        if let Some((p, d)) = impact_local {
            impacts.handle_impact(hb.bone, p, d);
        }
    }
    let staggered = last_health_mhp - health_mhp > PAIN_SOUND_THRESHOLD_MHP && health_mhp > 0;
    if staggered {
        agent.restoration_time_ms = STAGGER_TIME_MS;
    }
    DamageReaction { blow_up_head, extra_damage_mhp, staggered, play_pain_sound: staggered }
}

/// Law: a dead agent's tree takes the dead branch and nothing else. With
/// health at or below zero, one evaluation reports Running, leaves the
/// persistent state untouched, evaluates exactly the two leaves of the dead
/// branch, and of all outputs sets only the stand-still flag.
pub proof fn lemma_dead_bot_stays_down(close_combat_distance_milli: i64, c: CtxView)
    requires
        c.wf(),
        c.inputs.health_mhp <= 0,
    ensures
        ({
            let r = tick_node_spec(
                bot_tree_view(close_combat_distance_milli),
                BOT_TREE_ENTRY as int,
                c,
            );
            &&& r.1 == Status::Running
            &&& r.0.state == c.state
            &&& r.0.inputs == c.inputs
            &&& r.0.out == (OutputsView {
                stand_still: true,
                ticked_leaves: c.out.ticked_leaves.push(0u64).push(1u64),
                ..c.out
            })
        }),
{
    let tv = bot_tree_view(close_combat_distance_milli);
    let dead_children = seq![0usize, 1usize];
    let root_children = seq![2usize, 18usize];
    assert(tv[0] == (BtNodeView::Leaf { action: Action::IsDead }));
    assert(tv[1] == (BtNodeView::Leaf { action: Action::StayDead }));
    assert(tv[2] == (BtNodeView::Composite { kind: NodeKind::Sequence, children: dead_children }));
    assert(tv[19] == (BtNodeView::Composite {
        kind: NodeKind::Selector,
        children: root_children,
    }));
    lemma_bot_tree_node_wf(close_combat_distance_milli, 2);
    lemma_bot_tree_node_wf(close_combat_distance_milli, 19);

    // The dead branch: IsDead succeeds, StayDead keeps running.
    let after0 = tick_node_spec(tv, 0, c);
    assert(after0 == (crate::behavior::push_trace(c, 0), Status::Success));
    assert(run_prefix(tv, dead_children, 0, c) == c);
    assert(run_prefix(tv, dead_children, 1, c) == after0.0);
    let after1 = tick_node_spec(tv, 1, after0.0);
    assert(after1.1 == Status::Running);
    lemma_composite_stops(tv, 2, NodeKind::Sequence, dead_children, c, 1);
    assert(tick_node_spec(tv, 2, c) == after1);

    // The root selector stops at the running dead branch.
    assert(run_prefix(tv, root_children, 0, c) == c);
    lemma_composite_stops(tv, 19, NodeKind::Selector, root_children, c, 0);
    assert(tick_node_spec(tv, 19, c) == after1);

    assert(after1.0.out =~= (OutputsView {
        stand_still: true,
        ticked_leaves: c.out.ticked_leaves.push(0u64).push(1u64),
        ..c.out
    }));
}

/// Law: an agent with no health ticks into the dead branch: the animation
/// machine is told it is dead and neither moving, attacking, aiming nor
/// screaming; no movement, aim or shot command is issued; the persistent
/// state only advances its timers.
pub proof fn lemma_dead_bot_tick(
    close_combat_distance_milli: i64,
    state: BehaviorState,
    restoration_time_ms: int,
    inputs: InputsView,
    dt: int,
)
    requires
        state.wf(),
        inputs.wf(),
        inputs.health_mhp <= 0,
    ensures
        ({
            let br = bot_tick_spec(
                bot_tree_view(close_combat_distance_milli),
                BOT_TREE_ENTRY as int,
                state,
                restoration_time_ms,
                inputs,
                dt,
            );
            &&& br.status == Status::Running
            &&& br.sm_input.dead
            &&& !br.sm_input.walk
            &&& !br.sm_input.attack
            &&& !br.sm_input.aim
            &&& !br.sm_input.scream
            &&& !br.out.is_moving
            &&& br.out.move_target is None
            &&& br.out.aim_target is None
            &&& br.out.shoot_at is None
            &&& br.out.stand_still
            &&& br.out.ticked_leaves == seq![0u64, 1u64]
            &&& br.state == post_tick_state(state, dt)
        }),
{
    let c0 = CtxView { inputs, state, out: OutputsView::fresh() };
    lemma_dead_bot_stays_down(close_combat_distance_milli, c0);
    let r = tick_node_spec(bot_tree_view(close_combat_distance_milli), BOT_TREE_ENTRY as int, c0);
    assert(r.0.out.ticked_leaves =~= seq![0u64, 1u64]);
}

/// Law: the threaten handshake. While the cool-down is spent the need check
/// succeeds. Ticking the threaten action once while the upper layer plays the
/// threaten state and once after it has left it yields Running and then
/// Success, and the new cool-down lies in `[20, 60)` seconds.
pub proof fn lemma_threaten_cycle(c: CtxView)
    requires
        c.wf(),
        c.state.threaten_timeout_ms <= 0,
        c.inputs.upper_layer_available,
    ensures
        action_tick_spec(Action::NeedsThreatenTarget, c).1 == Status::Success,
        ({
            let c_in = CtxView {
                inputs: InputsView { upper_layer_in_threaten: true, ..c.inputs },
                ..c
            };
            let r1 = action_tick_spec(Action::ThreatenTarget, c_in);
            let c_out = CtxView {
                inputs: InputsView { upper_layer_in_threaten: false, ..r1.0.inputs },
                ..r1.0
            };
            let r2 = action_tick_spec(Action::ThreatenTarget, c_out);
            &&& r1.1 == Status::Running
            &&& r2.1 == Status::Success
            &&& THREATEN_REFILL_MIN_MS as int <= r2.0.state.threaten_timeout_ms
                < THREATEN_REFILL_MAX_MS as int
        }),
{
}

} // verus!
