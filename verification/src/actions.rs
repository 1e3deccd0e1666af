//! The tactical leaf behaviors of a bot: the closed union of actions a
//! behavior-tree leaf can hold, and the exact effect of ticking each one.

use vstd::prelude::*;
use crate::Status;
use crate::context::{
    BehaviorContext, BehaviorState, BotHostility, Candidate, CtxView, InputsView, OutputsView,
    Target,
};
use crate::vecmath::{dist_sq, dist_sq_spec};

verus! {

/// One leaf behavior. Persistent per-action state (the threaten handshake)
/// lives in `BehaviorState`, so a tree of actions is immutable once built.
#[derive(Clone, Copy, Debug, PartialEq, Eq, Structural)]
pub enum Action {
    /// Succeeds while the agent's health is at or below zero.
    IsDead,
    /// Runs forever once reached; parks the body.
    StayDead,
    /// Picks the nearest living, visible candidate allowed by the hostility
    /// rule; fails when there is none.
    FindTarget,
    /// Succeeds while a target is set; asks the host to aim the spine at it.
    AimOnTarget,
    /// Succeeds while the threaten cool-down has run out.
    NeedsThreatenTarget,
    /// Drives the scream handshake with the upper animation layer.
    ThreatenTarget,
    /// Succeeds while a clear shot on the target is possible.
    CanShootTarget,
    /// Walks the navmesh path until the given distance remains.
    MoveToTarget { min_distance_milli: i64 },
    /// Succeeds while the target is within melee reach.
    CanMeleeAttack,
    /// Runs a melee swing; the damage lands when the animation event fires.
    DoMeleeAttack,
    /// Fires at the target when the fire timer has run out.
    ShootTarget,
}

/// Whether the hostility rule lets a bot of species `self_kind` attack `c`.
pub open spec fn hostility_allows(h: BotHostility, self_kind: u64, c: Candidate) -> bool {
    match h {
        BotHostility::Everyone => true,
        BotHostility::OtherSpecies => c.is_player || c.kind != self_kind,
        BotHostility::Player => c.is_player,
    }
}

/// Whether `c` may become the target at all: alive, visible, allowed.
pub open spec fn eligible_candidate(inp: InputsView, c: Candidate) -> bool {
    &&& c.health_mhp > 0
    &&& c.in_line_of_sight
    &&& hostility_allows(inp.hostility, inp.self_kind, c)
}

/// The first nearest eligible candidate of the list: a later candidate wins
/// only by a strictly smaller distance.
pub open spec fn best_candidate(inp: InputsView, cands: Seq<Candidate>) -> Option<Candidate>
    decreases cands.len(),
{
    if cands.len() == 0 {
        None
    } else {
        let prefix = best_candidate(inp, cands.drop_last());
        let c = cands.last();
        if eligible_candidate(inp, c) {
            match prefix {
                None => Some(c),
                Some(b) => if dist_sq_spec(c.position, inp.self_position) < dist_sq_spec(
                    b.position,
                    inp.self_position,
                ) {
                    Some(c)
                } else {
                    Some(b)
                },
            }
        } else {
            prefix
        }
    }
}

/// Whether a clear ranged shot on the current target is possible.
pub open spec fn can_shoot_spec(c: CtxView) -> bool {
    &&& c.state.target is Some
    &&& c.inputs.target_exists
    &&& c.inputs.target_los_clear
    &&& dist_sq_spec(c.state.target->Some_0.position, c.inputs.self_position)
        <= c.inputs.weapon_range_milli * c.inputs.weapon_range_milli
}

/// Whether the current target is within melee reach.
pub open spec fn can_melee_spec(c: CtxView) -> bool {
    &&& c.state.target is Some
    &&& dist_sq_spec(c.state.target->Some_0.position, c.inputs.self_position)
        <= c.inputs.close_combat_distance_milli * c.inputs.close_combat_distance_milli
}

/// The exact effect of ticking one action: the context afterwards and the
/// status reported to the composite above it.
pub open spec fn action_tick_spec(a: Action, c: CtxView) -> (CtxView, Status) {
    match a {
        Action::IsDead => (
            c,
            if c.inputs.health_mhp <= 0 {
                Status::Success
            } else {
                Status::Failure
            },
        ),
        Action::StayDead => (
            CtxView { out: OutputsView { stand_still: true, ..c.out }, ..c },
            Status::Running,
        ),
        Action::FindTarget => match best_candidate(c.inputs, c.inputs.candidates) {
            Some(b) => (
                CtxView {
                    state: BehaviorState {
                        target: Some(Target { handle: b.handle, position: b.position }),
                        ..c.state
                    },
                    ..c
                },
                Status::Success,
            ),
            None => (c, Status::Failure),
        },
        Action::AimOnTarget => match c.state.target {
            Some(t) => (
                CtxView {
                    out: OutputsView {
                        is_aiming_weapon: true,
                        aim_target: Some(t.position),
                        ..c.out
                    },
                    ..c
                },
                Status::Success,
            ),
            None => (c, Status::Failure),
        },
        Action::NeedsThreatenTarget => (
            c,
            if c.state.threaten_timeout_ms <= 0 {
                Status::Success
            } else {
                Status::Failure
            },
        ),
        Action::ThreatenTarget => {
            if !c.inputs.upper_layer_available {
                (c, Status::Failure)
            } else if c.inputs.upper_layer_in_threaten {
                (
                    CtxView {
                        state: BehaviorState { threaten_in_progress: true, ..c.state },
                        out: OutputsView { stand_still: true, ..c.out },
                        ..c
                    },
                    Status::Running,
                )
            } else if c.state.threaten_in_progress {
                (
                    CtxView {
                        state: BehaviorState {
                            threaten_in_progress: false,
                            threaten_timeout_ms: c.inputs.threaten_refill_ms as i64,
                            ..c.state
                        },
                        ..c
                    },
                    Status::Success,
                )
            } else {
                (
                    CtxView { out: OutputsView { is_screaming: true, ..c.out }, ..c },
                    Status::Running,
                )
            }
        },
        Action::CanShootTarget => (
            c,
            if can_shoot_spec(c) {
                Status::Success
            } else {
                Status::Failure
            },
        ),
        Action::MoveToTarget { min_distance_milli } => match c.state.target {
            Some(t) => {
                if c.inputs.path_distance_milli <= min_distance_milli as int {
                    (c, Status::Success)
                } else {
                    (
                        CtxView {
                            out: OutputsView {
                                is_moving: true,
                                movement_speed_factor_milli: 1000,
                                move_target: Some(t.position),
                                ..c.out
                            },
                            ..c
                        },
                        Status::Running,
                    )
                }
            },
            None => (c, Status::Failure),
        },
        Action::CanMeleeAttack => (
            c,
            if can_melee_spec(c) {
                Status::Success
            } else {
                Status::Failure
            },
        ),
        Action::DoMeleeAttack => (
            CtxView {
                out: OutputsView {
                    is_attacking: true,
                    attack_animation_index: c.inputs.attack_index_choice,
                    ..c.out
                },
                ..c
            },
            Status::Running,
        ),
        Action::ShootTarget => match c.state.target {
            Some(t) => {
                if c.state.fire_timer_ms <= 0 {
                    (
                        CtxView {
                            state: BehaviorState {
                                fire_timer_ms: c.inputs.fire_interval_ms as i64,
                                v_recoil: crate::angle::SmoothAngle {
                                    target: c.inputs.recoil_kick_v_mdeg as i64,
                                    ..c.state.v_recoil
                                },
                                h_recoil: crate::angle::SmoothAngle {
                                    target: c.inputs.recoil_kick_h_mdeg as i64,
                                    ..c.state.h_recoil
                                },
                                ..c.state
                            },
                            out: OutputsView { shoot_at: Some(t.position), ..c.out },
                            ..c
                        },
                        Status::Success,
                    )
                } else {
                    (c, Status::Failure)
                }
            },
            None => (c, Status::Failure),
        },
    }
}

/// Ticking an action never invents new inputs, keeps the context well formed,
/// and only appends nothing to the evaluation trace.
pub proof fn lemma_action_tick_wf(a: Action, c: CtxView)
    requires
        c.wf(),
    ensures
        action_tick_spec(a, c).0.wf(),
        action_tick_spec(a, c).0.inputs == c.inputs,
        action_tick_spec(a, c).0.out.ticked_leaves == c.out.ticked_leaves,
{
    if a is FindTarget {
        lemma_best_candidate_eligible(c.inputs, c.inputs.candidates);
    }
}

/// What `best_candidate` returns is an eligible element of the list.
pub proof fn lemma_best_candidate_eligible(inp: InputsView, cands: Seq<Candidate>)
    ensures
        match best_candidate(inp, cands) {
            Some(b) => eligible_candidate(inp, b) && cands.contains(b),
            None => true,
        },
    decreases cands.len(),
{
    if cands.len() > 0 {
        lemma_best_candidate_eligible(inp, cands.drop_last());
        match best_candidate(inp, cands.drop_last()) {
            Some(b) => {
                assert(cands.drop_last().contains(b) ==> cands.contains(b)) by {
                    if cands.drop_last().contains(b) {
                        let k = choose|k: int|
                            0 <= k < cands.drop_last().len() && cands.drop_last()[k] == b;
                        assert(cands[k] == b);
                    }
                }
            },
            None => {},
        }
        assert(cands.contains(cands.last()));
    }
}

/// Law: `best_candidate` returns `None` exactly when no candidate is
/// eligible, and otherwise a nearest eligible candidate.
pub proof fn lemma_best_candidate_nearest(inp: InputsView, cands: Seq<Candidate>)
    ensures
        (best_candidate(inp, cands) is None <==> forall|k: int|
            0 <= k < cands.len() ==> !eligible_candidate(inp, #[trigger] cands[k])),
        match best_candidate(inp, cands) {
            Some(b) => forall|k: int|
                0 <= k < cands.len() && eligible_candidate(inp, #[trigger] cands[k])
                    ==> dist_sq_spec(b.position, inp.self_position) <= dist_sq_spec(
                    cands[k].position,
                    inp.self_position,
                ),
            None => true,
        },
    decreases cands.len(),
{
    if cands.len() > 0 {
        let pre = cands.drop_last();
        let c = cands.last();
        lemma_best_candidate_nearest(inp, pre);
        assert(forall|k: int| 0 <= k < pre.len() ==> #[trigger] pre[k] == cands[k]);
        assert(c == cands[cands.len() - 1]);
        if best_candidate(inp, cands) is None {
            assert(!eligible_candidate(inp, c));
            assert(best_candidate(inp, pre) is None);
            assert forall|k: int| 0 <= k < cands.len() implies !eligible_candidate(
                inp,
                #[trigger] cands[k],
            ) by {
                if k < cands.len() - 1 {
                    assert(cands[k] == pre[k]);
                }
            }
        }
        if forall|k: int| 0 <= k < cands.len() ==> !eligible_candidate(inp, #[trigger] cands[k]) {
            assert forall|k: int| 0 <= k < pre.len() implies !eligible_candidate(
                inp,
                #[trigger] pre[k],
            ) by {
                assert(pre[k] == cands[k]);
            }
            assert(best_candidate(inp, pre) is None);
            assert(!eligible_candidate(inp, cands[cands.len() - 1]));
            assert(best_candidate(inp, cands) is None);
        }
        match best_candidate(inp, cands) {
            Some(b) => {
                assert forall|k: int|
                    0 <= k < cands.len() && eligible_candidate(inp, #[trigger] cands[k]) implies
                    dist_sq_spec(b.position, inp.self_position) <= dist_sq_spec(
                    cands[k].position,
                    inp.self_position,
                ) by {
                    if k < cands.len() - 1 {
                        assert(cands[k] == pre[k]);
                        assert(eligible_candidate(inp, pre[k]));
                        assert(best_candidate(inp, pre) is Some);
                        let pb = best_candidate(inp, pre)->Some_0;
                        assert(dist_sq_spec(pb.position, inp.self_position) <= dist_sq_spec(
                            pre[k].position,
                            inp.self_position,
                        ));
                        assert(dist_sq_spec(b.position, inp.self_position) <= dist_sq_spec(
                            pb.position,
                            inp.self_position,
                        ));
                    } else {
                        assert(cands[k] == c);
                    }
                }
            },
            None => {},
        }
    }
}

/// Tick one action against the live context.
pub fn action_tick(a: &Action, ctx: &mut BehaviorContext) -> (s: Status)
    requires
        old(ctx)@.wf(),
    ensures
        final(ctx)@ == action_tick_spec(*a, old(ctx)@).0,
        s == action_tick_spec(*a, old(ctx)@).1,
        final(ctx)@.wf(),
{
    proof {
        lemma_action_tick_wf(*a, old(ctx)@);
    }
    match a {
        Action::IsDead => {
            if ctx.inputs.health_mhp <= 0 {
                Status::Success
            } else {
                Status::Failure
            }
        },
        Action::StayDead => {
            ctx.out.stand_still = true;
            Status::Running
        },
        Action::FindTarget => {
            let found = find_best_candidate(ctx);
            match found {
                Some(t) => {
                    ctx.state.target = Some(t);
                    Status::Success
                },
                None => Status::Failure,
            }
        },
        Action::AimOnTarget => match ctx.state.target {
            Some(t) => {
                ctx.out.is_aiming_weapon = true;
                ctx.out.aim_target = Some(t.position);
                Status::Success
            },
            None => Status::Failure,
        },
        Action::NeedsThreatenTarget => {
            if ctx.state.threaten_timeout_ms <= 0 {
                Status::Success
            } else {
                Status::Failure
            }
        },
        Action::ThreatenTarget => {
            if !ctx.inputs.upper_layer_available {
                Status::Failure
            } else if ctx.inputs.upper_layer_in_threaten {
                ctx.state.threaten_in_progress = true;
                ctx.out.stand_still = true;
                Status::Running
            } else if ctx.state.threaten_in_progress {
                ctx.state.threaten_in_progress = false;
                ctx.state.threaten_timeout_ms = ctx.inputs.threaten_refill_ms;
                Status::Success
            } else {
                ctx.out.is_screaming = true;
                Status::Running
            }
        },
        Action::CanShootTarget => match ctx.state.target {
            Some(t) => {
                proof {
                    lemma_range_sq_bound(ctx.inputs.weapon_range_milli as int);
                }
                let range = ctx.inputs.weapon_range_milli;
                if ctx.inputs.target_exists && ctx.inputs.target_los_clear && dist_sq(
                    &t.position,
                    &ctx.inputs.self_position,
                ) <= range * range {
                    Status::Success
                } else {
                    Status::Failure
                }
            },
            None => Status::Failure,
        },
        Action::MoveToTarget { min_distance_milli } => match ctx.state.target {
            Some(t) => {
                if ctx.inputs.path_distance_milli <= *min_distance_milli {
                    Status::Success
                } else {
                    ctx.out.is_moving = true;
                    ctx.out.movement_speed_factor_milli = 1000;
                    ctx.out.move_target = Some(t.position);
                    Status::Running
                }
            },
            None => Status::Failure,
        },
        Action::CanMeleeAttack => match ctx.state.target {
            Some(t) => {
                proof {
                    lemma_range_sq_bound(ctx.inputs.close_combat_distance_milli as int);
                }
                let close = ctx.inputs.close_combat_distance_milli;
                if dist_sq(&t.position, &ctx.inputs.self_position) <= close * close {
                    Status::Success
                } else {
                    Status::Failure
                }
            },
            None => Status::Failure,
        },
        Action::DoMeleeAttack => {
            ctx.out.is_attacking = true;
            ctx.out.attack_animation_index = ctx.inputs.attack_index_choice;
            Status::Running
        },
        Action::ShootTarget => match ctx.state.target {
            Some(t) => {
                if ctx.state.fire_timer_ms <= 0 {
                    ctx.state.fire_timer_ms = ctx.inputs.fire_interval_ms;
                    ctx.state.v_recoil.target = ctx.inputs.recoil_kick_v_mdeg;
                    ctx.state.h_recoil.target = ctx.inputs.recoil_kick_h_mdeg;
                    ctx.out.shoot_at = Some(t.position);
                    Status::Success
                } else {
                    Status::Failure
                }
            },
            None => Status::Failure,
        },
    }
}

proof fn lemma_range_sq_bound(r: int)
    requires
        0 <= r <= crate::vecmath::POS_BOUND as int,
    ensures
        0 <= r * r <= 250_000_000_000_000_000,
{
    assert(0 <= r * r <= 250_000_000_000_000_000) by (nonlinear_arith)
        requires
            0 <= r <= 500_000_000,
    ;
}

/// Scan the candidate list for the first nearest eligible entry.
fn find_best_candidate(ctx: &BehaviorContext) -> (r: Option<Target>)
    requires
        ctx@.wf(),
    ensures
        r == match best_candidate(ctx@.inputs, ctx@.inputs.candidates) {
            Some(b) => Some(Target { handle: b.handle, position: b.position }),
            None => None::<Target>,
        },
{
    let ghost inp = ctx@.inputs;
    let cands = &ctx.inputs.candidates;
    let mut best: Option<Candidate> = None;
    let mut best_dist: i64 = 0;
    let n = cands.len();
    let mut k: usize = 0;
    while k < n
        invariant
            n == cands@.len(),
            0 <= k <= n,
            inp == ctx@.inputs,
            cands@ == ctx@.inputs.candidates,
            ctx@.wf(),
            best == best_candidate(inp, cands@.take(k as int)),
            match best {
                Some(b) => best_dist == dist_sq_spec(b.position, inp.self_position),
                None => true,
            },
        decreases n - k,
    {
        let c = cands[k];
        proof {
            assert(cands@.take(k as int + 1).drop_last() =~= cands@.take(k as int));
            assert(cands@.take(k as int + 1).last() == cands@[k as int]);
        }
        let c_eligible = c.health_mhp > 0 && c.in_line_of_sight && match ctx.inputs.hostility {
            BotHostility::Everyone => true,
            BotHostility::OtherSpecies => c.is_player || c.kind != ctx.inputs.self_kind,
            BotHostility::Player => c.is_player,
        };
        if c_eligible {
            let d = dist_sq(&c.position, &ctx.inputs.self_position);
            match best {
                None => {
                    best = Some(c);
                    best_dist = d;
                },
                Some(_) => {
                    if d < best_dist {
                        best = Some(c);
                        best_dist = d;
                    }
                },
            }
        }
        k = k + 1;
    }
    proof {
        assert(cands@.take(n as int) =~= cands@);
    }
    match best {
        Some(b) => Some(Target { handle: b.handle, position: b.position }),
        None => None,
    }
}

} // verus!
