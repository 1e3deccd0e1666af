//! Adapter between the tactical outputs and the host's two-layer animation
//! blend machine. The adapter resolves the four combat states by name at
//! construction (construction fails if the rig lacks one), pushes the tick's
//! outputs as named parameters, and turns the events the blended animations
//! emitted back into discrete commands.

use vstd::prelude::*;
use crate::context::Target;

verus! {

/// Handle of an upper-body state: an index into the layer's state list.
pub type StateIndex = usize;

/// The four upper-body states the bot drives, resolved by name.
#[derive(Clone, Copy, Debug, PartialEq, Eq, Structural)]
pub struct StateMachine {
    pub aim_state: StateIndex,
    pub attack_state: StateIndex,
    pub threaten_state: StateIndex,
    pub dead_state: StateIndex,
}

/// The first index whose name reads `target`.
pub open spec fn first_index_of(names: Seq<String>, target: Seq<char>) -> Option<int>
    decreases names.len(),
{
    if names.len() == 0 {
        None
    } else if names[0]@ == target {
        Some(0int)
    } else {
        match first_index_of(names.drop_first(), target) {
            Some(j) => Some(j + 1),
            None => None,
        }
    }
}

/// Find the first state of the layer whose name reads `target`.
fn find_state(names: &Vec<String>, target: &String) -> (r: Option<usize>)
    ensures
        (r is Some) == (first_index_of(names@, target@) is Some),
        r is Some ==> first_index_of(names@, target@) == Some(r->Some_0 as int) && r->Some_0
            < names@.len(),
{
    let n = names.len();
    let mut k: usize = 0;
    while k < n
        invariant
            0 <= k <= n,
            n == names@.len(),
            forall|m: int| 0 <= m < k ==> (#[trigger] names@[m])@ != target@,
        decreases n - k,
    {
        if names[k] == *target {
            proof {
                lemma_first_index_of_found(names@, target@, k as int);
            }
            return Some(k);
        }
        k = k + 1;
    }
    proof {
        if first_index_of(names@, target@) is Some {
            lemma_first_index_of_in_range(names@, target@);
        }
    }
    None
}

/// `first_index_of` lies within the list and points at a match.
proof fn lemma_first_index_of_in_range(names: Seq<String>, target: Seq<char>)
    requires
        first_index_of(names, target) is Some,
    ensures
        0 <= first_index_of(names, target)->Some_0 < names.len(),
        names[first_index_of(names, target)->Some_0]@ == target,
    decreases names.len(),
{
    if names.len() > 0 && names[0]@ != target {
        lemma_first_index_of_in_range(names.drop_first(), target);
        let j = first_index_of(names.drop_first(), target)->Some_0;
        assert(names.drop_first()[j] == names[j + 1]);
    }
}

/// If no entry before `k` matches and entry `k` does, the first match is `k`.
proof fn lemma_first_index_of_found(names: Seq<String>, target: Seq<char>, k: int)
    requires
        0 <= k < names.len(),
        forall|m: int| 0 <= m < k ==> (#[trigger] names[m])@ != target,
        names[k]@ == target,
    ensures
        first_index_of(names, target) == Some(k),
    decreases k,
{
    if k > 0 {
        assert(names[0]@ != target);
        assert(forall|m: int|
            0 <= m < k - 1 ==> (#[trigger] names.drop_first()[m]) == names[m + 1]);
        lemma_first_index_of_found(names.drop_first(), target, k - 1);
    }
}


impl StateMachine {
    /// Resolve the four combat states on the upper-body layer, given the
    /// layer's state names in order. All four must resolve, else the rig is
    /// unusable and the agent must not spawn.
    pub fn new(upper_state_names: &Vec<String>) -> (r: Option<StateMachine>)
        ensures
            r is Some <==> {
                &&& first_index_of(upper_state_names@, "Aim"@) is Some
                &&& first_index_of(upper_state_names@, "MeleeAttack"@) is Some
                &&& first_index_of(upper_state_names@, "Threaten"@) is Some
                &&& first_index_of(upper_state_names@, "Dead"@) is Some
            },
            r is Some ==> {
                let sm = r->Some_0;
                &&& Some(sm.aim_state as int) == first_index_of(upper_state_names@, "Aim"@)
                &&& Some(sm.attack_state as int) == first_index_of(
                    upper_state_names@,
                    "MeleeAttack"@,
                )
                &&& Some(sm.threaten_state as int) == first_index_of(
                    upper_state_names@,
                    "Threaten"@,
                )
                &&& Some(sm.dead_state as int) == first_index_of(upper_state_names@, "Dead"@)
            },
    {
        let aim_name: String = "Aim".to_owned();
        let attack_name: String = "MeleeAttack".to_owned();
        let threaten_name: String = "Threaten".to_owned();
        let dead_name: String = "Dead".to_owned();
        let aim_state = match find_state(upper_state_names, &aim_name) {
            Some(v) => v,
            None => {
                return None;
            },
        };
        let attack_state = match find_state(upper_state_names, &attack_name) {
            Some(v) => v,
            None => {
                return None;
            },
        };
        let threaten_state = match find_state(upper_state_names, &threaten_name) {
            Some(v) => v,
            None => {
                return None;
            },
        };
        let dead_state = match find_state(upper_state_names, &dead_name) {
            Some(v) => v,
            None => {
                return None;
            },
        };
        Some(StateMachine { aim_state, attack_state, threaten_state, dead_state })
    }

    /// Whether the upper-body layer currently plays the aim state.
    pub fn is_in_aim_state(&self, active_state: StateIndex) -> (r: bool)
        ensures
            r == (active_state == self.aim_state),
    {
        active_state == self.aim_state
    }

    /// Whether the upper-body layer currently plays the threaten state.
    pub fn is_in_threaten_state(&self, active_state: StateIndex) -> (r: bool)
        ensures
            r == (active_state == self.threaten_state),
    {
        active_state == self.threaten_state
    }
}

/// The symbolic parameters the blend machine is driven by.
#[derive(Clone, Copy, Debug, PartialEq, Eq, Structural)]
pub enum AnimParam {
    Attack,
    AttackAnimationIndex,
    Walk,
    Threaten,
    Aim,
    Dead,
    WasHit,
}

/// A parameter value: a boolean transition rule or an animation index.
#[derive(Clone, Copy, Debug, PartialEq, Eq, Structural)]
pub enum AnimValue {
    Rule(bool),
    Index(u32),
}

/// What one tick hands the blend machine.
#[derive(Clone, Copy, Debug, PartialEq, Eq, Structural)]
pub struct StateMachineInput {
    pub walk: bool,
    pub scream: bool,
    pub dead: bool,
    pub movement_speed_factor_milli: i64,
    pub attack: bool,
    pub attack_animation_index: u32,
    pub aim: bool,
    pub badly_damaged: bool,
}

/// The exact parameter pushes one application produces, in order.
pub open spec fn apply_spec(input: StateMachineInput) -> Seq<(AnimParam, AnimValue)> {
    seq![
        (AnimParam::Attack, AnimValue::Rule(input.attack)),
        (AnimParam::AttackAnimationIndex, AnimValue::Index(input.attack_animation_index)),
        (AnimParam::Walk, AnimValue::Rule(input.walk)),
        (AnimParam::Threaten, AnimValue::Rule(input.scream)),
        (AnimParam::Aim, AnimValue::Rule(input.aim)),
        (AnimParam::Dead, AnimValue::Rule(input.dead)),
        (AnimParam::WasHit, AnimValue::Rule(input.badly_damaged)),
    ]
}

/// Turn one tick's outputs into the seven named parameters of the blend
/// machine. This is a pure write: the machine's own transition rules decide
/// what the parameters cause.
pub fn apply(input: &StateMachineInput) -> (r: Vec<(AnimParam, AnimValue)>)
    ensures
        r@ == apply_spec(*input),
{
    let mut r: Vec<(AnimParam, AnimValue)> = Vec::new();
    r.push((AnimParam::Attack, AnimValue::Rule(input.attack)));
    r.push((AnimParam::AttackAnimationIndex, AnimValue::Index(input.attack_animation_index)));
    r.push((AnimParam::Walk, AnimValue::Rule(input.walk)));
    r.push((AnimParam::Threaten, AnimValue::Rule(input.scream)));
    r.push((AnimParam::Aim, AnimValue::Rule(input.aim)));
    r.push((AnimParam::Dead, AnimValue::Rule(input.dead)));
    r.push((AnimParam::WasHit, AnimValue::Rule(input.badly_damaged)));
    proof {
        assert(r@ =~= apply_spec(*input));
    }
    r
}

/// A discrete marker an animation emitted this tick.
#[derive(Clone, Copy, Debug, PartialEq, Eq, Structural)]
pub enum AnimEvent {
    /// A foot touched the ground (lower layer).
    Footstep,
    /// The melee swing reached its contact frame (upper layer).
    Hit,
    /// The death animation reached its marker (upper layer).
    Dead,
    /// Any marker the bot does not react to.
    Other,
}

/// One animation currently blended on a layer, with its blend weight and the
/// events it emitted this tick.
#[derive(Clone, Debug)]
pub struct AnimTrack {
    /// Blend weight, milli-scale.
    pub weight_milli: i64,
    pub events: Vec<AnimEvent>,
}

/// The index of the first track with the greatest weight.
pub open spec fn max_weight_index(tracks: Seq<AnimTrack>) -> Option<int>
    decreases tracks.len(),
{
    if tracks.len() == 0 {
        None
    } else {
        match max_weight_index(tracks.drop_last()) {
            None => Some(tracks.len() - 1),
            Some(j) => if tracks.last().weight_milli > tracks[j].weight_milli {
                Some(tracks.len() - 1)
            } else {
                Some(j)
            },
        }
    }
}

/// The events delivered for a layer: those of the first track with the
/// greatest blend weight; none when nothing is blended.
pub open spec fn collected_events_spec(tracks: Seq<AnimTrack>) -> Seq<AnimEvent> {
    match max_weight_index(tracks) {
        None => Seq::empty(),
        Some(j) => tracks[j].events@,
    }
}

/// Collect the events of the dominant track of a layer: when several
/// animations are blended at once, the one with the greatest weight wins.
pub fn collect_events_max_weight(tracks: &Vec<AnimTrack>) -> (r: Vec<AnimEvent>)
    ensures
        r@ == collected_events_spec(tracks@),
{
    let n = tracks.len();
    if n == 0 {
        let r: Vec<AnimEvent> = Vec::new();
        proof {
            assert(r@ =~= collected_events_spec(tracks@));
        }
        return r;
    }
    let mut best: usize = 0;
    let mut k: usize = 1;
    proof {
        assert(tracks@.take(1int).drop_last().len() == 0);
        assert(max_weight_index(tracks@.take(1int).drop_last()) is None);
        assert(tracks@.take(1int).last() == tracks@[0]);
        assert(max_weight_index(tracks@.take(1int)) == Some(0int));
    }
    while k < n
        invariant
            1 <= k <= n,
            n == tracks@.len(),
            best < k,
            max_weight_index(tracks@.take(k as int)) == Some(best as int),
        decreases n - k,
    {
        proof {
            assert(tracks@.take(k as int + 1).drop_last() =~= tracks@.take(k as int));
            assert(tracks@.take(k as int + 1).last() == tracks@[k as int]);
        }
        if tracks[k].weight_milli > tracks[best].weight_milli {
            best = k;
        }
        k = k + 1;
    }
    proof {
        assert(tracks@.take(n as int) =~= tracks@);
    }
    let src = &tracks[best].events;
    let m = src.len();
    let mut r: Vec<AnimEvent> = Vec::new();
    let mut t: usize = 0;
    while t < m
        invariant
            0 <= t <= m,
            m == src@.len(),
            src@ == tracks@[best as int].events@,
            best < tracks@.len(),
            max_weight_index(tracks@) == Some(best as int),
            r@ == src@.take(t as int),
        decreases m - t,
    {
        r.push(src[t]);
        proof {
            assert(r@ =~= src@.take(t as int + 1));
        }
        t = t + 1;
    }
    proof {
        assert(r@ =~= src@);
    }
    r
}

/// Damage one melee hit deals, milli-hitpoints.
pub const MELEE_DAMAGE_MHP: i64 = 20_000;

/// What the bot asks the host to do in reaction to animation events.
#[derive(Clone, Copy, Debug, PartialEq, Eq, Structural)]
pub enum BotCommand {
    /// Cast the footstep ray below the body and play the surface sound.
    FootstepCheck,
    /// Deliver a damage message to the given character.
    DamageTarget { target: u64, amount_mhp: i64, is_melee: bool },
    PlayPunchSound,
    PlayAttackSound,
    /// Let the ragdoll take the body over.
    ActivateRagdoll,
}

/// The commands one lower-body event causes.
pub open spec fn lower_event_cmds(e: AnimEvent) -> Seq<BotCommand> {
    if e is Footstep {
        seq![BotCommand::FootstepCheck]
    } else {
        Seq::empty()
    }
}

/// The commands one upper-body event causes. A melee contact frame lands
/// damage only while the melee action is in progress and a target is held; a
/// death marker hands the body to the ragdoll.
pub open spec fn upper_event_cmds(
    e: AnimEvent,
    target: Option<Target>,
    is_melee_attacking: bool,
) -> Seq<BotCommand> {
    match e {
        AnimEvent::Hit => match target {
            Some(t) => if is_melee_attacking {
                seq![
                    BotCommand::DamageTarget {
                        target: t.handle,
                        amount_mhp: MELEE_DAMAGE_MHP,
                        is_melee: true,
                    },
                    BotCommand::PlayPunchSound,
                    BotCommand::PlayAttackSound,
                ]
            } else {
                seq![BotCommand::PlayAttackSound]
            },
            None => Seq::empty(),
        },
        AnimEvent::Dead => seq![BotCommand::ActivateRagdoll],
        _ => Seq::empty(),
    }
}

pub open spec fn lower_cmds(events: Seq<AnimEvent>) -> Seq<BotCommand>
    decreases events.len(),
{
    if events.len() == 0 {
        Seq::empty()
    } else {
        lower_cmds(events.drop_last()) + lower_event_cmds(events.last())
    }
}

pub open spec fn upper_cmds(
    events: Seq<AnimEvent>,
    target: Option<Target>,
    is_melee_attacking: bool,
) -> Seq<BotCommand>
    decreases events.len(),
{
    if events.len() == 0 {
        Seq::empty()
    } else {
        upper_cmds(events.drop_last(), target, is_melee_attacking) + upper_event_cmds(
            events.last(),
            target,
            is_melee_attacking,
        )
    }
}

/// All commands one tick's events cause, lower layer first.
pub open spec fn handle_events_spec(
    lower: Seq<AnimEvent>,
    upper: Seq<AnimEvent>,
    target: Option<Target>,
    is_melee_attacking: bool,
) -> Seq<BotCommand> {
    lower_cmds(lower) + upper_cmds(upper, target, is_melee_attacking)
}

/// React to the events the two layers delivered this tick.
pub fn handle_events(
    lower: &Vec<AnimEvent>,
    upper: &Vec<AnimEvent>,
    target: Option<Target>,
    is_melee_attacking: bool,
) -> (r: Vec<BotCommand>)
    ensures
        r@ == handle_events_spec(lower@, upper@, target, is_melee_attacking),
{
    let mut r: Vec<BotCommand> = Vec::new();
    let nl = lower.len();
    let mut k: usize = 0;
    proof {
        assert(r@ =~= lower_cmds(lower@.take(0int)));
    }
    while k < nl
        invariant
            0 <= k <= nl,
            nl == lower@.len(),
            r@ == lower_cmds(lower@.take(k as int)),
        decreases nl - k,
    {
        proof {
            assert(lower@.take(k as int + 1).drop_last() =~= lower@.take(k as int));
            assert(lower@.take(k as int + 1).last() == lower@[k as int]);
        }
        match lower[k] {
            AnimEvent::Footstep => {
                r.push(BotCommand::FootstepCheck);
            },
            _ => {},
        }
        proof {
            assert(r@ =~= lower_cmds(lower@.take(k as int + 1)));
        }
        k = k + 1;
    }
    proof {
        assert(lower@.take(nl as int) =~= lower@);
    }
    let nu = upper.len();
    let mut j: usize = 0;
    proof {
        assert(upper@.take(0int) =~= Seq::<AnimEvent>::empty());
        assert(r@ =~= lower_cmds(lower@) + upper_cmds(
            upper@.take(0int),
            target,
            is_melee_attacking,
        ));
    }
    while j < nu
        invariant
            0 <= j <= nu,
            nu == upper@.len(),
            r@ == lower_cmds(lower@) + upper_cmds(upper@.take(j as int), target, is_melee_attacking),
        decreases nu - j,
    {
        proof {
            assert(upper@.take(j as int + 1).drop_last() =~= upper@.take(j as int));
            assert(upper@.take(j as int + 1).last() == upper@[j as int]);
        }
        match upper[j] {
            AnimEvent::Hit => match target {
                Some(t) => {
                    if is_melee_attacking {
                        r.push(
                            BotCommand::DamageTarget {
                                target: t.handle,
                                amount_mhp: MELEE_DAMAGE_MHP,
                                is_melee: true,
                            },
                        );
                        r.push(BotCommand::PlayPunchSound);
                    }
                    r.push(BotCommand::PlayAttackSound);
                },
                None => {},
            },
            AnimEvent::Dead => {
                r.push(BotCommand::ActivateRagdoll);
            },
            _ => {},
        }
        proof {
            assert(r@ =~= lower_cmds(lower@) + upper_cmds(
                upper@.take(j as int + 1),
                target,
                is_melee_attacking,
            ));
        }
        j = j + 1;
    }
    proof {
        assert(upper@.take(nu as int) =~= upper@);
    }
    r
}

} // verus!
