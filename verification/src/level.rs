//! Level-side rules the agents live under: death zones that kill whatever
//! enters them, and the fading of shot trails.

use vstd::prelude::*;
use crate::projectile::ActorInfo;
use crate::vecmath::Vec3i;

verus! {

/// Damage a death zone deals per frame to whoever stands in it: far beyond
/// any health pool.
pub const DEATH_ZONE_DAMAGE_MHP: i64 = 99_999_000;

/// An axis-aligned box, milli-units.
#[derive(Clone, Copy, Debug, PartialEq, Eq, Structural)]
pub struct Aabb {
    pub min: Vec3i,
    pub max: Vec3i,
}

impl Aabb {
    pub open spec fn contains_spec(self, p: Vec3i) -> bool {
        &&& self.min.x <= p.x <= self.max.x
        &&& self.min.y <= p.y <= self.max.y
        &&& self.min.z <= p.z <= self.max.z
    }

    pub fn contains(&self, p: &Vec3i) -> (r: bool)
        ensures
            r == self.contains_spec(*p),
    {
        self.min.x <= p.x && p.x <= self.max.x && self.min.y <= p.y && p.y <= self.max.y
            && self.min.z <= p.z && p.z <= self.max.z
    }
}

pub open spec fn in_any_zone(zones: Seq<Aabb>, p: Vec3i) -> bool {
    exists|i: int| 0 <= i < zones.len() && (#[trigger] zones[i]).contains_spec(p)
}

fn in_any_zone_exec(zones: &Vec<Aabb>, p: &Vec3i) -> (r: bool)
    ensures
        r == in_any_zone(zones@, *p),
{
    let n = zones.len();
    let mut k: usize = 0;
    while k < n
        invariant
            0 <= k <= n,
            n == zones@.len(),
            forall|m: int| 0 <= m < k ==> !(#[trigger] zones@[m]).contains_spec(*p),
        decreases n - k,
    {
        if zones[k].contains(p) {
            assert(zones@[k as int].contains_spec(*p));
            return true;
        }
        k = k + 1;
    }
    proof {
        if in_any_zone(zones@, *p) {
            let i = choose|i: int| 0 <= i < zones@.len() && (#[trigger] zones@[i]).contains_spec(*p);
        }
    }
    false
}

/// The actors standing in some death zone, in list order.
pub open spec fn victims_spec(zones: Seq<Aabb>, actors: Seq<ActorInfo>) -> Seq<u64>
    decreases actors.len(),
{
    if actors.len() == 0 {
        Seq::empty()
    } else {
        let rest = victims_spec(zones, actors.drop_last());
        if in_any_zone(zones, actors.last().position) {
            rest.push(actors.last().handle)
        } else {
            rest
        }
    }
}

/// Which actors a frame's death-zone check condemns: everyone whose position
/// lies inside one of the zones.
pub fn death_zone_victims(zones: &Vec<Aabb>, actors: &Vec<ActorInfo>) -> (r: Vec<u64>)
    ensures
        r@ == victims_spec(zones@, actors@),
{
    let mut r: Vec<u64> = Vec::new();
    let n = actors.len();
    let mut k: usize = 0;
    proof {
        assert(actors@.take(0int) =~= Seq::<ActorInfo>::empty());
    }
    while k < n
        invariant
            0 <= k <= n,
            n == actors@.len(),
            r@ == victims_spec(zones@, actors@.take(k as int)),
        decreases n - k,
    {
        proof {
            assert(actors@.take(k as int + 1).drop_last() =~= actors@.take(k as int));
            assert(actors@.take(k as int + 1).last() == actors@[k as int]);
        }
        let a = actors[k];
        if in_any_zone_exec(zones, &a.position) {
            r.push(a.handle);
        }
        k = k + 1;
    }
    proof {
        assert(actors@.take(n as int) =~= actors@);
    }
    r
}

/// One fading beam left by a hitscan shot.
#[derive(Clone, Copy, Debug, PartialEq, Eq, Structural)]
pub struct ShotTrail {
    /// How long the trail has lived, milliseconds.
    pub lifetime_ms: i64,
    /// How long it lives in total, milliseconds; positive.
    pub max_lifetime_ms: i64,
}

impl ShotTrail {
    pub open spec fn wf(self) -> bool {
        &&& 0 < self.max_lifetime_ms <= crate::context::TIMER_BOUND_MS
        &&& 0 <= self.lifetime_ms <= self.max_lifetime_ms
    }
}

/// A trail's opacity, milli-scale: full when fresh, zero at the end of its
/// life.
pub open spec fn trail_alpha_spec(t: ShotTrail) -> int {
    1000 - 1000 * (t.lifetime_ms as int) / (t.max_lifetime_ms as int)
}

pub open spec fn trail_aged(t: ShotTrail, dt: int) -> ShotTrail {
    if t.lifetime_ms + dt >= t.max_lifetime_ms {
        ShotTrail { lifetime_ms: t.max_lifetime_ms, ..t }
    } else {
        ShotTrail { lifetime_ms: (t.lifetime_ms + dt) as i64, ..t }
    }
}

/// The trails that survive the update: those not yet at the end of their
/// lives.
pub open spec fn trails_kept_spec(trails: Seq<ShotTrail>, dt: int) -> Seq<ShotTrail>
    decreases trails.len(),
{
    if trails.len() == 0 {
        Seq::empty()
    } else {
        let rest = trails_kept_spec(trails.drop_last(), dt);
        let t = trail_aged(trails.last(), dt);
        if t.lifetime_ms < t.max_lifetime_ms {
            rest.push(t)
        } else {
            rest
        }
    }
}

/// Age every trail by `dt`, report each one's new opacity (a finished trail
/// reports zero, for its last frame), and drop the finished ones.
pub fn update_trails(trails: &mut Vec<ShotTrail>, dt_ms: i64) -> (alphas: Vec<i64>)
    requires
        forall|i: int| 0 <= i < old(trails)@.len() ==> (#[trigger] old(trails)@[i]).wf(),
        0 <= dt_ms <= crate::angle::DT_BOUND_MS,
    ensures
        alphas@.len() == old(trails)@.len(),
        forall|i: int|
            0 <= i < alphas@.len() ==> (#[trigger] alphas@[i]) as int == trail_alpha_spec(
                trail_aged(old(trails)@[i], dt_ms as int),
            ),
        final(trails)@ == trails_kept_spec(old(trails)@, dt_ms as int),
        forall|i: int| 0 <= i < final(trails)@.len() ==> (#[trigger] final(trails)@[i]).wf(),
{
    let ghost s0 = trails@;
    let n = trails.len();
    let mut alphas: Vec<i64> = Vec::new();
    let mut kept: Vec<ShotTrail> = Vec::new();
    let mut k: usize = 0;
    while k < n
        invariant
            0 <= k <= n,
            n == s0.len(),
            trails@ == s0,
            forall|i: int| 0 <= i < s0.len() ==> (#[trigger] s0[i]).wf(),
            0 <= dt_ms <= crate::angle::DT_BOUND_MS,
            alphas@.len() == k,
            forall|i: int|
                0 <= i < k ==> (#[trigger] alphas@[i]) as int == trail_alpha_spec(
                    trail_aged(s0[i], dt_ms as int),
                ),
            kept@ == trails_kept_spec(s0.take(k as int), dt_ms as int),
            forall|i: int| 0 <= i < kept@.len() ==> (#[trigger] kept@[i]).wf(),
        decreases n - k,
    {
        let t0 = trails[k];
        let aged = if t0.lifetime_ms + dt_ms >= t0.max_lifetime_ms {
            ShotTrail { lifetime_ms: t0.max_lifetime_ms, ..t0 }
        } else {
            ShotTrail { lifetime_ms: t0.lifetime_ms + dt_ms, ..t0 }
        };
        proof {
            assert(aged == trail_aged(s0[k as int], dt_ms as int));
            lemma_alpha_range(aged);
            assert(s0.take(k as int + 1).drop_last() =~= s0.take(k as int));
            assert(s0.take(k as int + 1).last() == s0[k as int]);
        }
        let alpha: i64 = 1000 - 1000 * aged.lifetime_ms / aged.max_lifetime_ms;
        alphas.push(alpha);
        if aged.lifetime_ms < aged.max_lifetime_ms {
            kept.push(aged);
        }
        k = k + 1;
    }
    proof {
        assert(s0.take(n as int) =~= s0);
    }
    *trails = kept;
    alphas
}

/// A living trail keeps a positive opacity; a finished one reports zero.
pub proof fn lemma_alpha_range(t: ShotTrail)
    requires
        t.wf(),
    ensures
        0 <= trail_alpha_spec(t) <= 1000,
        t.lifetime_ms == t.max_lifetime_ms ==> trail_alpha_spec(t) == 0,
        t.lifetime_ms == 0 ==> trail_alpha_spec(t) == 1000,
        0 <= 1000 * t.lifetime_ms <= 1_000_000_000_000_000,
{
    let l = t.lifetime_ms as int;
    let m = t.max_lifetime_ms as int;
    assert(0 <= 1000 * l <= 1_000_000_000_000_000) by (nonlinear_arith)
        requires
            0 <= l <= 1_000_000_000_000,
    ;
    assert(0 <= 1000 * l / m <= 1000) by (nonlinear_arith)
        requires
            0 < m,
            0 <= l <= m,
    ;
    if l == m {
        assert(1000 * m / m == 1000) by (nonlinear_arith)
            requires
                0 < m,
        ;
    }
    if l == 0 {
        assert(1000 * 0int / m == 0) by (nonlinear_arith)
            requires
                0 < m,
        ;
    }
}

} // verus!
