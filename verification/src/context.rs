//! The per-tick behavior context: a plain-value snapshot of what the agent
//! perceives, the state it carries across ticks, and the outputs one tick
//! produces for the host to act on.

use vstd::prelude::*;
use crate::angle::SmoothAngle;
use crate::vecmath::Vec3i;

verus! {

/// Largest timer magnitude, in milliseconds.
pub const TIMER_BOUND_MS: i64 = 1_000_000_000_000;

/// Which other agents a bot is willing to attack.
#[derive(Clone, Copy, Debug, PartialEq, Eq, Structural)]
pub enum BotHostility {
    /// Attack anything alive.
    Everyone,
    /// Attack players and bots of another species.
    OtherSpecies,
    /// Attack players only.
    Player,
}

/// The current attack target: a scene handle plus its last seen position.
#[derive(Clone, Copy, Debug, PartialEq, Eq, Structural)]
pub struct Target {
    pub handle: u64,
    pub position: Vec3i,
}

/// What the agent knows about one other agent, captured before the tick.
#[derive(Clone, Copy, Debug, PartialEq, Eq, Structural)]
pub struct Candidate {
    /// Scene handle of the candidate.
    pub handle: u64,
    /// Species tag; bots of the same species are not each other's prey under
    /// `BotHostility::OtherSpecies`.
    pub kind: u64,
    pub is_player: bool,
    /// Health in milli-hitpoints; a candidate is alive while positive.
    pub health_mhp: i64,
    pub position: Vec3i,
    /// Whether an unobstructed ray from the agent reaches the candidate.
    pub in_line_of_sight: bool,
}

/// Read-only inputs of one behavior tick. The host gathers these from the
/// scene, the physics queries and the animation machine before the tree runs.
#[derive(Clone, Debug)]
pub struct BehaviorInputs {
    pub self_position: Vec3i,
    pub self_kind: u64,
    /// Own health, milli-hitpoints; the agent is dead at zero or below.
    pub health_mhp: i64,
    pub hostility: BotHostility,
    pub candidates: Vec<Candidate>,
    /// Whether the upper-body animation layer resolved this tick.
    pub upper_layer_available: bool,
    /// Whether that layer's active state is the threaten state.
    pub upper_layer_in_threaten: bool,
    /// Whether the current target can still be resolved in the scene.
    pub target_exists: bool,
    /// Whether a clear ranged line of sight to the current target holds.
    pub target_los_clear: bool,
    /// Ranged weapon reach, milli-units.
    pub weapon_range_milli: i64,
    /// Distance left on the navmesh path toward the target, milli-units.
    pub path_distance_milli: i64,
    /// Distance under which a melee attack connects, milli-units.
    pub close_combat_distance_milli: i64,
    /// Delay between shots, milliseconds.
    pub fire_interval_ms: i64,
    /// Fresh threaten cool-down, drawn before the tick from the host's
    /// randomness; always in `[20_000, 60_000)` milliseconds.
    pub threaten_refill_ms: i64,
    /// Pre-drawn attack animation choice, below `attack_animation_count`.
    pub attack_index_choice: u32,
    /// How many attack animations the rig offers; at least one.
    pub attack_animation_count: u32,
    /// Recoil kick applied to the vertical smoothed angle on a shot,
    /// milli-degrees.
    pub recoil_kick_v_mdeg: i64,
    /// Recoil kick applied to the horizontal smoothed angle on a shot,
    /// milli-degrees.
    pub recoil_kick_h_mdeg: i64,
}

/// Ghost mirror of `BehaviorInputs`, with the candidate list as a sequence.
pub ghost struct InputsView {
    pub self_position: Vec3i,
    pub self_kind: u64,
    pub health_mhp: int,
    pub hostility: BotHostility,
    pub candidates: Seq<Candidate>,
    pub upper_layer_available: bool,
    pub upper_layer_in_threaten: bool,
    pub target_exists: bool,
    pub target_los_clear: bool,
    pub weapon_range_milli: int,
    pub path_distance_milli: int,
    pub close_combat_distance_milli: int,
    pub fire_interval_ms: int,
    pub threaten_refill_ms: int,
    pub attack_index_choice: u32,
    pub attack_animation_count: u32,
    pub recoil_kick_v_mdeg: int,
    pub recoil_kick_h_mdeg: int,
}

impl View for BehaviorInputs {
    type V = InputsView;

    open spec fn view(&self) -> InputsView {
        InputsView {
            self_position: self.self_position,
            self_kind: self.self_kind,
            health_mhp: self.health_mhp as int,
            hostility: self.hostility,
            candidates: self.candidates@,
            upper_layer_available: self.upper_layer_available,
            upper_layer_in_threaten: self.upper_layer_in_threaten,
            target_exists: self.target_exists,
            target_los_clear: self.target_los_clear,
            weapon_range_milli: self.weapon_range_milli as int,
            path_distance_milli: self.path_distance_milli as int,
            close_combat_distance_milli: self.close_combat_distance_milli as int,
            fire_interval_ms: self.fire_interval_ms as int,
            threaten_refill_ms: self.threaten_refill_ms as int,
            attack_index_choice: self.attack_index_choice,
            attack_animation_count: self.attack_animation_count,
            recoil_kick_v_mdeg: self.recoil_kick_v_mdeg as int,
            recoil_kick_h_mdeg: self.recoil_kick_h_mdeg as int,
        }
    }
}

impl InputsView {
    pub open spec fn wf(self) -> bool {
        &&& self.self_position.in_bounds()
        &&& forall|k: int|
            0 <= k < self.candidates.len() ==> (#[trigger] self.candidates[k]).position.in_bounds()
        &&& 0 <= self.weapon_range_milli <= crate::vecmath::POS_BOUND as int
        &&& 0 <= self.path_distance_milli <= TIMER_BOUND_MS as int
        &&& 0 <= self.close_combat_distance_milli <= crate::vecmath::POS_BOUND as int
        &&& 0 <= self.fire_interval_ms <= TIMER_BOUND_MS as int
        &&& 20_000 <= self.threaten_refill_ms < 60_000
        &&& self.attack_animation_count >= 1
        &&& self.attack_index_choice < self.attack_animation_count
        &&& -(crate::angle::HALF_TURN_MDEG as int) <= self.recoil_kick_v_mdeg < crate::angle::HALF_TURN_MDEG as int
        &&& -(crate::angle::HALF_TURN_MDEG as int) <= self.recoil_kick_h_mdeg < crate::angle::HALF_TURN_MDEG as int
    }
}

/// Agent state that persists across ticks and that the tree's actions mutate.
#[derive(Clone, Copy, Debug, PartialEq, Eq, Structural)]
pub struct BehaviorState {
    pub target: Option<Target>,
    /// Time left until the bot may threaten again; the threaten branch runs
    /// while this is at or below zero.
    pub threaten_timeout_ms: i64,
    /// Whether the threaten animation state has been observed active since the
    /// threaten action last reported success.
    pub threaten_in_progress: bool,
    /// Time left until the ranged weapon may fire again.
    pub fire_timer_ms: i64,
    /// Vertical recoil accumulator.
    pub v_recoil: SmoothAngle,
    /// Horizontal recoil accumulator.
    pub h_recoil: SmoothAngle,
}

impl BehaviorState {
    pub open spec fn wf(self) -> bool {
        &&& -TIMER_BOUND_MS <= self.threaten_timeout_ms <= TIMER_BOUND_MS
        &&& -TIMER_BOUND_MS <= self.fire_timer_ms <= TIMER_BOUND_MS
        &&& self.v_recoil.wf()
        &&& self.h_recoil.wf()
        &&& match self.target {
            Some(t) => t.position.in_bounds(),
            None => true,
        }
    }
}

/// What one behavior tick asks of the host. Every field starts from its
/// default each tick; the last action to write a field wins.
#[derive(Clone, Debug)]
pub struct BehaviorOutputs {
    /// Scale on the locomotion speed, milli-factor; 1000 is full speed.
    pub movement_speed_factor_milli: i64,
    pub is_moving: bool,
    pub is_attacking: bool,
    pub is_aiming_weapon: bool,
    pub is_screaming: bool,
    /// Set while a branch wants the body parked regardless of locomotion.
    pub stand_still: bool,
    /// Which attack animation the melee action chose.
    pub attack_animation_index: u32,
    /// Where the navmesh agent should head, when moving.
    pub move_target: Option<Vec3i>,
    /// Where the spine should aim, when aiming.
    pub aim_target: Option<Vec3i>,
    /// Where a shot should be dispatched, when firing.
    pub shoot_at: Option<Vec3i>,
    /// Node indices of the leaves the engine evaluated, in order.
    pub ticked_leaves: Vec<u64>,
}

/// Ghost mirror of `BehaviorOutputs`.
pub ghost struct OutputsView {
    pub movement_speed_factor_milli: int,
    pub is_moving: bool,
    pub is_attacking: bool,
    pub is_aiming_weapon: bool,
    pub is_screaming: bool,
    pub stand_still: bool,
    pub attack_animation_index: u32,
    pub move_target: Option<Vec3i>,
    pub aim_target: Option<Vec3i>,
    pub shoot_at: Option<Vec3i>,
    pub ticked_leaves: Seq<u64>,
}

impl View for BehaviorOutputs {
    type V = OutputsView;

    open spec fn view(&self) -> OutputsView {
        OutputsView {
            movement_speed_factor_milli: self.movement_speed_factor_milli as int,
            is_moving: self.is_moving,
            is_attacking: self.is_attacking,
            is_aiming_weapon: self.is_aiming_weapon,
            is_screaming: self.is_screaming,
            stand_still: self.stand_still,
            attack_animation_index: self.attack_animation_index,
            move_target: self.move_target,
            aim_target: self.aim_target,
            shoot_at: self.shoot_at,
            ticked_leaves: self.ticked_leaves@,
        }
    }
}

impl OutputsView {
    /// The outputs a tick starts from.
    pub open spec fn fresh() -> OutputsView {
        OutputsView {
            movement_speed_factor_milli: 1000,
            is_moving: false,
            is_attacking: false,
            is_aiming_weapon: false,
            is_screaming: false,
            stand_still: false,
            attack_animation_index: 0,
            move_target: None,
            aim_target: None,
            shoot_at: None,
            ticked_leaves: Seq::empty(),
        }
    }
}

impl BehaviorOutputs {
    /// The outputs a tick starts from.
    pub fn fresh() -> (r: BehaviorOutputs)
        ensures
            r@ == OutputsView::fresh(),
    {
        let r = BehaviorOutputs {
            movement_speed_factor_milli: 1000,
            is_moving: false,
            is_attacking: false,
            is_aiming_weapon: false,
            is_screaming: false,
            stand_still: false,
            attack_animation_index: 0,
            move_target: None,
            aim_target: None,
            shoot_at: None,
            ticked_leaves: Vec::new(),
        };
        proof {
            assert(r@.ticked_leaves =~= OutputsView::fresh().ticked_leaves);
            assert(r@ =~= OutputsView::fresh());
        }
        r
    }
}

/// Everything one tree evaluation works on.
#[derive(Clone, Debug)]
pub struct BehaviorContext {
    pub inputs: BehaviorInputs,
    pub state: BehaviorState,
    pub out: BehaviorOutputs,
}

/// Ghost mirror of `BehaviorContext`; the behavior specifications are stated
/// over this value.
pub ghost struct CtxView {
    pub inputs: InputsView,
    pub state: BehaviorState,
    pub out: OutputsView,
}

impl View for BehaviorContext {
    type V = CtxView;

    open spec fn view(&self) -> CtxView {
        CtxView { inputs: self.inputs@, state: self.state, out: self.out@ }
    }
}

impl CtxView {
    pub open spec fn wf(self) -> bool {
        self.inputs.wf() && self.state.wf()
    }
}

} // verus!
