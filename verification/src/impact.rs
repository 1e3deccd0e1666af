//! The body-impact reaction layer: a transient per-bone rotational flinch,
//! applied on a hit and decaying to nothing within one second, independent of
//! and additive to the skeletal animation.

use vstd::prelude::*;
use vstd::pervasive::VecAdditionalExecFns;
use crate::vecmath::{cross, cross_spec, Vec3i};

verus! {

/// The flinch magnitude right after a hit, milli-degrees.
pub const IMPACT_ANGLE_MDEG: i64 = 24_000;

/// One full decay, milliseconds: an entry is pruned once its progress reaches
/// this.
pub const IMPACT_DECAY_MS: i64 = 1_000;

/// One bone's transient rotation.
#[derive(Clone, Copy, Debug, PartialEq, Eq, Structural)]
pub struct ImpactEntry {
    /// Rotation axis in bone-local space: impact point crossed with impact
    /// direction. Only its direction matters.
    pub axis: Vec3i,
    /// Blend progress from full flinch (0) to none (1000), milliseconds.
    pub k_milli: i64,
}

/// What the host should apply to one bone this tick: an additional local
/// rotation about `axis` by `angle_mdeg`.
#[derive(Clone, Copy, Debug, PartialEq, Eq, Structural)]
pub struct ImpactApply {
    pub bone: u64,
    pub axis: Vec3i,
    pub angle_mdeg: i64,
}

pub open spec fn keys_unique(s: Seq<(u64, ImpactEntry)>) -> bool {
    forall|i: int, j: int| 0 <= i < j < s.len() ==> (#[trigger] s[i]).0 != (#[trigger] s[j]).0
}

pub open spec fn entries_wf(s: Seq<(u64, ImpactEntry)>) -> bool {
    &&& keys_unique(s)
    &&& forall|i: int| 0 <= i < s.len() ==> 0 <= (#[trigger] s[i]).1.k_milli < IMPACT_DECAY_MS
}

pub open spec fn has_bone(s: Seq<(u64, ImpactEntry)>, bone: u64) -> bool {
    exists|i: int| 0 <= i < s.len() && (#[trigger] s[i]).0 == bone
}

/// The rotation an entry contributes: the full flinch scaled down linearly as
/// the progress approaches one second.
pub open spec fn decay_angle(k_milli: int) -> int {
    (IMPACT_ANGLE_MDEG as int) * (IMPACT_DECAY_MS as int - k_milli) / (IMPACT_DECAY_MS as int)
}

/// The per-bone rotations one update emits, one per live entry, in order.
pub open spec fn apply_cmds(s: Seq<(u64, ImpactEntry)>) -> Seq<ImpactApply> {
    s.map_values(
        |e: (u64, ImpactEntry)|
            ImpactApply {
                bone: e.0,
                axis: e.1.axis,
                angle_mdeg: decay_angle(e.1.k_milli as int) as i64,
            },
    )
}

/// The entries after one update: progress advanced by `dt`, finished entries
/// pruned.
pub open spec fn decayed(s: Seq<(u64, ImpactEntry)>, dt: int) -> Seq<(u64, ImpactEntry)>
    decreases s.len(),
{
    if s.len() == 0 {
        s
    } else {
        let rest = decayed(s.drop_last(), dt);
        let e = s.last();
        if e.1.k_milli + dt < IMPACT_DECAY_MS {
            rest.push((e.0, ImpactEntry { axis: e.1.axis, k_milli: (e.1.k_milli + dt) as i64 }))
        } else {
            rest
        }
    }
}

/// A bone present after decay was present before.
pub proof fn lemma_decayed_keys(s: Seq<(u64, ImpactEntry)>, dt: int, bone: u64)
    ensures
        has_bone(decayed(s, dt), bone) ==> has_bone(s, bone),
    decreases s.len(),
{
    if s.len() > 0 {
        lemma_decayed_keys(s.drop_last(), dt, bone);
        if has_bone(decayed(s, dt), bone) {
            let d = decayed(s, dt);
            let i = choose|i: int| 0 <= i < d.len() && (#[trigger] d[i]).0 == bone;
            let rest = decayed(s.drop_last(), dt);
            if i < rest.len() {
                assert(rest[i].0 == bone);
            } else {
                assert(s.last().0 == bone);
                assert(s[s.len() - 1].0 == bone);
            }
        }
        if has_bone(s.drop_last(), bone) {
            let i = choose|i: int|
                0 <= i < s.drop_last().len() && (#[trigger] s.drop_last()[i]).0 == bone;
            assert(s[i].0 == bone);
        }
    }
}

/// Decay preserves well-formedness.
pub proof fn lemma_decayed_wf(s: Seq<(u64, ImpactEntry)>, dt: int)
    requires
        entries_wf(s),
        dt >= 0,
    ensures
        entries_wf(decayed(s, dt)),
    decreases s.len(),
{
    if s.len() > 0 {
        assert(forall|i: int|
            0 <= i < s.drop_last().len() ==> #[trigger] s.drop_last()[i] == s[i]);
        lemma_decayed_wf(s.drop_last(), dt);
        let rest = decayed(s.drop_last(), dt);
        let e = s.last();
        if e.1.k_milli + dt < IMPACT_DECAY_MS {
            let d = rest.push((e.0, ImpactEntry { axis: e.1.axis, k_milli: (e.1.k_milli + dt) as i64 }));
            assert forall|i: int, j: int| 0 <= i < j < d.len() implies (#[trigger] d[i]).0 != (
            #[trigger] d[j]).0 by {
                if j < d.len() - 1 {
                } else {
                    // The pushed bone cannot also sit in the decayed prefix:
                    // it would have been in the prefix before decay, against
                    // uniqueness.
                    assert(d[j] == (e.0, ImpactEntry {
                        axis: e.1.axis,
                        k_milli: (e.1.k_milli + dt) as i64,
                    }));
                    if d[i].0 == e.0 {
                        assert(rest[i].0 == e.0);
                        assert(has_bone(rest, e.0));
                        lemma_decayed_keys(s.drop_last(), dt, e.0);
                        let m = choose|m: int|
                            0 <= m < s.drop_last().len() && (#[trigger] s.drop_last()[m]).0 == e.0;
                        assert(s[m].0 == e.0);
                        assert(s[s.len() - 1].0 == e.0);
                    }
                }
            }
        }
    }
}

/// The first entry index of a bone.
pub open spec fn find_bone(s: Seq<(u64, ImpactEntry)>, bone: u64) -> Option<int>
    decreases s.len(),
{
    if s.len() == 0 {
        None
    } else if s[0].0 == bone {
        Some(0int)
    } else {
        match find_bone(s.drop_first(), bone) {
            Some(j) => Some(j + 1),
            None => None,
        }
    }
}

proof fn lemma_find_bone_some(s: Seq<(u64, ImpactEntry)>, bone: u64)
    requires
        find_bone(s, bone) is Some,
    ensures
        0 <= find_bone(s, bone)->Some_0 < s.len(),
        s[find_bone(s, bone)->Some_0].0 == bone,
    decreases s.len(),
{
    if s.len() > 0 && s[0].0 != bone {
        lemma_find_bone_some(s.drop_first(), bone);
        let j = find_bone(s.drop_first(), bone)->Some_0;
        assert(s.drop_first()[j] == s[j + 1]);
    }
}

proof fn lemma_find_bone_at(s: Seq<(u64, ImpactEntry)>, bone: u64, k: int)
    requires
        0 <= k < s.len(),
        forall|m: int| 0 <= m < k ==> (#[trigger] s[m]).0 != bone,
        s[k].0 == bone,
    ensures
        find_bone(s, bone) == Some(k),
    decreases k,
{
    if k > 0 {
        assert(s[0].0 != bone);
        assert(forall|m: int| 0 <= m < k - 1 ==> (#[trigger] s.drop_first()[m]) == s[m + 1]);
        lemma_find_bone_at(s.drop_first(), bone, k - 1);
    }
}

/// The entries after a hit on `bone`: the axis is the local impact point
/// crossed with the local direction; a degenerate axis changes nothing, a
/// fresh axis restarts or creates the bone's entry.
pub open spec fn handle_impact_spec(
    entries: Seq<(u64, ImpactEntry)>,
    bone: u64,
    local_point: Vec3i,
    local_direction: Vec3i,
) -> Seq<(u64, ImpactEntry)> {
    let axis = cross_spec(local_point, local_direction);
    if axis.is_zero() {
        entries
    } else {
        match find_bone(entries, bone) {
            Some(j) => entries.update(j, (bone, ImpactEntry { axis, k_milli: 0 })),
            None => entries.push((bone, ImpactEntry { axis, k_milli: 0 })),
        }
    }
}

proof fn lemma_find_bone_none(s: Seq<(u64, ImpactEntry)>, bone: u64)
    requires
        forall|m: int| 0 <= m < s.len() ==> (#[trigger] s[m]).0 != bone,
    ensures
        find_bone(s, bone) is None,
        !has_bone(s, bone),
{
    if find_bone(s, bone) is Some {
        lemma_find_bone_some(s, bone);
    }
}

/// Transient per-bone flinches, at most one per bone. A new impact on an
/// already flinching bone restarts its blend instead of stacking.
#[derive(Clone, Debug)]
pub struct BodyImpactHandler {
    pub entries: Vec<(u64, ImpactEntry)>,
}

impl BodyImpactHandler {
    pub open spec fn wf(self) -> bool {
        entries_wf(self.entries@)
    }

    pub fn new() -> (r: BodyImpactHandler)
        ensures
            r.wf(),
            r.entries@.len() == 0,
    {
        BodyImpactHandler { entries: Vec::new() }
    }

    /// Whether the bone currently carries a flinch.
    pub fn is_affected(&self, bone: u64) -> (r: bool)
        ensures
            r == has_bone(self.entries@, bone),
    {
        let n = self.entries.len();
        let mut k: usize = 0;
        while k < n
            invariant
                0 <= k <= n,
                n == self.entries@.len(),
                forall|m: int| 0 <= m < k ==> (#[trigger] self.entries@[m]).0 != bone,
            decreases n - k,
        {
            if self.entries[k].0 == bone {
                return true;
            }
            k = k + 1;
        }
        proof {
            lemma_find_bone_none(self.entries@, bone);
        }
        false
    }

    /// Register a hit on a bone: the rotation axis is the bone-local impact
    /// point crossed with the bone-local impact direction, and the blend
    /// restarts from the full flinch. A degenerate axis (parallel or zero
    /// vectors) skips the hit entirely.
    pub fn handle_impact(&mut self, bone: u64, local_point: Vec3i, local_direction: Vec3i)
        requires
            old(self).wf(),
            local_point.in_bounds(),
            local_direction.in_bounds(),
        ensures
            final(self).wf(),
            final(self).entries@ == handle_impact_spec(
                old(self).entries@,
                bone,
                local_point,
                local_direction,
            ),
            has_bone(final(self).entries@, bone) || cross_spec(
                local_point,
                local_direction,
            ).is_zero(),
    {
        let axis = cross(&local_point, &local_direction);
        if axis.x == 0 && axis.y == 0 && axis.z == 0 {
            return;
        }
        let entry = ImpactEntry { axis, k_milli: 0 };
        let n = self.entries.len();
        let mut k: usize = 0;
        while k < n
            invariant
                0 <= k <= n,
                n == self.entries@.len(),
                self.entries@ == old(self).entries@,
                entries_wf(self.entries@),
                entry == (ImpactEntry { axis: cross_spec(local_point, local_direction), k_milli: 0 }),
                !cross_spec(local_point, local_direction).is_zero(),
                forall|m: int| 0 <= m < k ==> (#[trigger] self.entries@[m]).0 != bone,
            decreases n - k,
        {
            if self.entries[k].0 == bone {
                proof {
                    lemma_find_bone_at(self.entries@, bone, k as int);
                }
                self.entries.set(k, (bone, entry));
                proof {
                    lemma_update_keeps_wf(old(self).entries@, k as int, (bone, entry));
                    assert(self.entries@[k as int].0 == bone);
                }
                return;
            }
            k = k + 1;
        }
        proof {
            lemma_find_bone_none(self.entries@, bone);
        }
        self.entries.push((bone, entry));
        proof {
            let s = old(self).entries@;
            let d = self.entries@;
            assert forall|i: int, j: int| 0 <= i < j < d.len() implies (#[trigger] d[i]).0 != (
            #[trigger] d[j]).0 by {
                if j == d.len() - 1 {
                    assert(d[i] == s[i]);
                }
            }
            assert(d[d.len() - 1].0 == bone);
        }
    }

    /// Advance every flinch by `dt` and report, per bone, the rotation to
    /// apply this tick (computed before the advance); flinches that have
    /// finished their second are pruned.
    pub fn update_and_apply(&mut self, dt_ms: i64) -> (r: Vec<ImpactApply>)
        requires
            old(self).wf(),
            0 <= dt_ms <= crate::angle::DT_BOUND_MS,
        ensures
            final(self).wf(),
            r@ == apply_cmds(old(self).entries@),
            final(self).entries@ == decayed(old(self).entries@, dt_ms as int),
    {
        proof {
            lemma_decayed_wf(self.entries@, dt_ms as int);
        }
        let ghost s0 = self.entries@;
        let n = self.entries.len();
        let mut cmds: Vec<ImpactApply> = Vec::new();
        let mut kept: Vec<(u64, ImpactEntry)> = Vec::new();
        let mut k: usize = 0;
        proof {
            assert(s0.take(0int) =~= Seq::<(u64, ImpactEntry)>::empty());
            assert(cmds@ =~= apply_cmds(s0.take(0int)));
        }
        while k < n
            invariant
                0 <= k <= n,
                n == s0.len(),
                self.entries@ == s0,
                entries_wf(s0),
                0 <= dt_ms <= crate::angle::DT_BOUND_MS,
                cmds@ == apply_cmds(s0.take(k as int)),
                kept@ == decayed(s0.take(k as int), dt_ms as int),
            decreases n - k,
        {
            let (bone, entry) = self.entries[k];
            proof {
                assert(s0.take(k as int + 1).drop_last() =~= s0.take(k as int));
                assert(s0.take(k as int + 1).last() == s0[k as int]);
                assert(apply_cmds(s0.take(k as int + 1)) =~= apply_cmds(s0.take(k as int)).push(
                    ImpactApply {
                        bone: s0[k as int].0,
                        axis: s0[k as int].1.axis,
                        angle_mdeg: decay_angle(s0[k as int].1.k_milli as int) as i64,
                    },
                ));
                assert(0 <= s0[k as int].1.k_milli < IMPACT_DECAY_MS);
                lemma_decay_angle_range(s0[k as int].1.k_milli as int);
            }
            let angle: i64 = IMPACT_ANGLE_MDEG * (IMPACT_DECAY_MS - entry.k_milli) / IMPACT_DECAY_MS;
            cmds.push(ImpactApply { bone, axis: entry.axis, angle_mdeg: angle });
            let advanced: i64 = entry.k_milli + dt_ms;
            if advanced < IMPACT_DECAY_MS {
                kept.push((bone, ImpactEntry { axis: entry.axis, k_milli: advanced }));
            }
            k = k + 1;
        }
        proof {
            assert(s0.take(n as int) =~= s0);
        }
        self.entries = kept;
        cmds
    }
}

/// The emitted flinch angle shrinks from the full angle to nothing.
pub proof fn lemma_decay_angle_range(k_milli: int)
    requires
        0 <= k_milli < IMPACT_DECAY_MS,
    ensures
        0 < decay_angle(k_milli) <= IMPACT_ANGLE_MDEG as int,
        k_milli == 0 ==> decay_angle(k_milli) == IMPACT_ANGLE_MDEG as int,
{
    let rem = IMPACT_DECAY_MS - k_milli;
    assert(24_000 <= 24_000 * rem <= 24_000_000) by (nonlinear_arith)
        requires
            1 <= rem <= 1_000,
    ;
}

proof fn lemma_update_keeps_wf(s: Seq<(u64, ImpactEntry)>, j: int, v: (u64, ImpactEntry))
    requires
        entries_wf(s),
        0 <= j < s.len(),
        v.0 == s[j].0,
        0 <= v.1.k_milli < IMPACT_DECAY_MS,
    ensures
        entries_wf(s.update(j, v)),
{
    let d = s.update(j, v);
    assert forall|i: int, m: int| 0 <= i < m < d.len() implies (#[trigger] d[i]).0 != (
    #[trigger] d[m]).0 by {
        assert(s[i].0 != s[m].0);
    }
}

/// Total progress added by a run of updates.
pub open spec fn sum_dts(dts: Seq<int>) -> int
    decreases dts.len(),
{
    if dts.len() == 0 {
        0
    } else {
        sum_dts(dts.drop_last()) + dts.last()
    }
}

/// The entries after a run of updates.
pub open spec fn decayed_many(s: Seq<(u64, ImpactEntry)>, dts: Seq<int>) -> Seq<(u64, ImpactEntry)>
    decreases dts.len(),
{
    if dts.len() == 0 {
        s
    } else {
        decayed(decayed_many(s, dts.drop_last()), dts.last())
    }
}

/// Every entry of the bone has progressed at least `v`. Vacuously true when
/// the bone is absent.
pub open spec fn bone_k_at_least(s: Seq<(u64, ImpactEntry)>, bone: u64, v: int) -> bool {
    forall|i: int| 0 <= i < s.len() && (#[trigger] s[i]).0 == bone ==> s[i].1.k_milli >= v
}

proof fn lemma_decay_k_step(s: Seq<(u64, ImpactEntry)>, dt: int, bone: u64, v: int)
    requires
        bone_k_at_least(s, bone, v),
        dt >= 0,
    ensures
        bone_k_at_least(decayed(s, dt), bone, v + dt),
    decreases s.len(),
{
    if s.len() > 0 {
        assert(forall|i: int|
            0 <= i < s.drop_last().len() ==> #[trigger] s.drop_last()[i] == s[i]);
        lemma_decay_k_step(s.drop_last(), dt, bone, v);
        let d = decayed(s, dt);
        let rest = decayed(s.drop_last(), dt);
        let e = s.last();
        if e.1.k_milli + dt < IMPACT_DECAY_MS {
            assert forall|i: int| 0 <= i < d.len() && (#[trigger] d[i]).0 == bone implies d[i].1.k_milli
                >= v + dt by {
                if i < rest.len() {
                    assert(rest[i].0 == bone);
                } else {
                    assert(s[s.len() - 1].0 == bone);
                }
            }
        }
    }
}

proof fn lemma_decay_k_many(s: Seq<(u64, ImpactEntry)>, dts: Seq<int>, bone: u64, v: int)
    requires
        bone_k_at_least(s, bone, v),
        forall|i: int| 0 <= i < dts.len() ==> #[trigger] dts[i] >= 0,
    ensures
        bone_k_at_least(decayed_many(s, dts), bone, v + sum_dts(dts)),
    decreases dts.len(),
{
    if dts.len() > 0 {
        assert(forall|i: int|
            0 <= i < dts.drop_last().len() ==> #[trigger] dts.drop_last()[i] == dts[i]);
        lemma_decay_k_many(s, dts.drop_last(), bone, v);
        assert(dts[dts.len() - 1] >= 0);
        lemma_decay_k_step(
            decayed_many(s, dts.drop_last()),
            dts.last(),
            bone,
            v + sum_dts(dts.drop_last()),
        );
    }
}

/// Well-formedness survives any run of updates.
pub proof fn lemma_decayed_many_wf(s: Seq<(u64, ImpactEntry)>, dts: Seq<int>)
    requires
        entries_wf(s),
        forall|i: int| 0 <= i < dts.len() ==> #[trigger] dts[i] >= 0,
    ensures
        entries_wf(decayed_many(s, dts)),
    decreases dts.len(),
{
    if dts.len() > 0 {
        assert(forall|i: int|
            0 <= i < dts.drop_last().len() ==> #[trigger] dts.drop_last()[i] == dts[i]);
        lemma_decayed_many_wf(s, dts.drop_last());
        assert(dts[dts.len() - 1] >= 0);
        lemma_decayed_wf(decayed_many(s, dts.drop_last()), dts.last());
    }
}

/// Law: a flinch fully decays. Once the updates applied to a handler add up
/// to at least one second, the hit bone carries no entry any more and no
/// further rotation is emitted for it: the bone is back at its pre-impact
/// rotation.
pub proof fn lemma_impact_fully_decays(s: Seq<(u64, ImpactEntry)>, dts: Seq<int>, bone: u64)
    requires
        entries_wf(s),
        forall|i: int| 0 <= i < dts.len() ==> #[trigger] dts[i] >= 0,
        sum_dts(dts) >= IMPACT_DECAY_MS as int,
    ensures
        !has_bone(decayed_many(s, dts), bone),
        forall|i: int|
            0 <= i < apply_cmds(decayed_many(s, dts)).len() ==> (#[trigger] apply_cmds(
                decayed_many(s, dts),
            )[i]).bone != bone,
{
    assert(bone_k_at_least(s, bone, 0));
    lemma_decay_k_many(s, dts, bone, 0);
    lemma_decayed_many_wf(s, dts);
    let d = decayed_many(s, dts);
    if has_bone(d, bone) {
        let i = choose|i: int| 0 <= i < d.len() && (#[trigger] d[i]).0 == bone;
        assert(d[i].1.k_milli >= IMPACT_DECAY_MS as int);
        assert(d[i].1.k_milli < IMPACT_DECAY_MS);
        assert(false);
    }
    assert forall|i: int| 0 <= i < apply_cmds(d).len() implies (#[trigger] apply_cmds(d)[i]).bone
        != bone by {
        assert(apply_cmds(d)[i].bone == d[i].0);
        if d[i].0 == bone {
            assert(has_bone(d, bone));
        }
    }
}

} // verus!
