//! The autonomous turret: periodic target selection through a view frustum,
//! hostility filter and line-of-sight test, two-axis smoothed aiming, and
//! firing-pattern dispatch with barrel kick-back.
//!
//! The host recomputes the frustum planes from the current stand orientation
//! every tick and computes the two aim angles toward the chosen target (both
//! are trigonometry on its side); everything the turret decides is here.

use vstd::prelude::*;
use crate::angle::SmoothAngle;
use crate::vecmath::{dist_sq, dist_sq_spec, Vec3i};

verus! {

/// How the barrels fire.
#[derive(Clone, Copy, Debug, PartialEq, Eq, Structural)]
pub enum ShootMode {
    /// One barrel per shot, cycling through them.
    Consecutive,
    /// Every barrel fires at once.
    Simultaneously,
}

/// Which agents the turret opens fire on.
#[derive(Clone, Copy, Debug, PartialEq, Eq, Structural)]
pub enum Hostility {
    Player,
    Monsters,
    All,
}

/// One clipping plane of the view frustum: the half-space
/// `a*x + b*y + c*z + d >= 0`, in milli-scaled coefficients.
#[derive(Clone, Copy, Debug, PartialEq, Eq, Structural)]
pub struct Plane {
    pub a: i64,
    pub b: i64,
    pub c: i64,
    pub d: i64,
}

/// Bound on normal coefficients; keeps the plane test within `i64`.
pub const PLANE_COEF_BOUND: i64 = 1_000_000;

/// Bound on the plane offset.
pub const PLANE_D_BOUND: i64 = 1_000_000_000_000_000;

impl Plane {
    pub open spec fn wf(self) -> bool {
        &&& -PLANE_COEF_BOUND <= self.a <= PLANE_COEF_BOUND
        &&& -PLANE_COEF_BOUND <= self.b <= PLANE_COEF_BOUND
        &&& -PLANE_COEF_BOUND <= self.c <= PLANE_COEF_BOUND
        &&& -PLANE_D_BOUND <= self.d <= PLANE_D_BOUND
    }

    /// Which side of the plane the point lies on.
    pub open spec fn admits_spec(self, p: Vec3i) -> bool {
        self.a * p.x + self.b * p.y + self.c * p.z + self.d >= 0
    }
}

/// Every plane admits the point.
pub open spec fn frustum_contains_spec(planes: Seq<Plane>, p: Vec3i) -> bool {
    forall|i: int| 0 <= i < planes.len() ==> (#[trigger] planes[i]).admits_spec(p)
}

pub open spec fn frustum_wf(planes: Seq<Plane>) -> bool {
    forall|i: int| 0 <= i < planes.len() ==> (#[trigger] planes[i]).wf()
}

proof fn lemma_plane_dot_bound(pl: Plane, p: Vec3i)
    requires
        pl.wf(),
        p.in_bounds(),
    ensures
        -500_000_000_000_000 <= pl.a * p.x <= 500_000_000_000_000,
        -500_000_000_000_000 <= pl.b * p.y <= 500_000_000_000_000,
        -500_000_000_000_000 <= pl.c * p.z <= 500_000_000_000_000,
{
    assert(-500_000_000_000_000 <= pl.a * p.x <= 500_000_000_000_000) by (nonlinear_arith)
        requires
            -1_000_000 <= pl.a <= 1_000_000,
            -500_000_000 <= p.x <= 500_000_000,
    ;
    assert(-500_000_000_000_000 <= pl.b * p.y <= 500_000_000_000_000) by (nonlinear_arith)
        requires
            -1_000_000 <= pl.b <= 1_000_000,
            -500_000_000 <= p.y <= 500_000_000,
    ;
    assert(-500_000_000_000_000 <= pl.c * p.z <= 500_000_000_000_000) by (nonlinear_arith)
        requires
            -1_000_000 <= pl.c <= 1_000_000,
            -500_000_000 <= p.z <= 500_000_000,
    ;
}

/// Test a point against every frustum plane.
pub fn frustum_contains(planes: &Vec<Plane>, p: &Vec3i) -> (r: bool)
    requires
        frustum_wf(planes@),
        p.in_bounds(),
    ensures
        r == frustum_contains_spec(planes@, *p),
{
    let n = planes.len();
    let mut k: usize = 0;
    while k < n
        invariant
            0 <= k <= n,
            n == planes@.len(),
            frustum_wf(planes@),
            p.in_bounds(),
            forall|m: int| 0 <= m < k ==> (#[trigger] planes@[m]).admits_spec(*p),
        decreases n - k,
    {
        let pl = planes[k];
        proof {
            lemma_plane_dot_bound(pl, *p);
        }
        if pl.a * p.x + pl.b * p.y + pl.c * p.z + pl.d < 0 {
            return false;
        }
        k = k + 1;
    }
    true
}

/// One ordered ray-cast intersection on the ray from a candidate to the
/// turret.
#[derive(Clone, Copy, Debug, PartialEq, Eq, Structural)]
pub struct RayHit {
    pub collider: u64,
    /// Capsule colliders are character hitboxes and do not occlude.
    pub is_capsule: bool,
}

/// A non-capsule collider other than the turret's own blocks the ray.
pub open spec fn occluded_spec(self_collider: u64, hits: Seq<RayHit>) -> bool {
    exists|i: int|
        0 <= i < hits.len() && (#[trigger] hits[i]).collider != self_collider && !hits[i].is_capsule
}

fn is_occluded(self_collider: u64, hits: &Vec<RayHit>) -> (r: bool)
    ensures
        r == occluded_spec(self_collider, hits@),
{
    let n = hits.len();
    let mut k: usize = 0;
    while k < n
        invariant
            0 <= k <= n,
            n == hits@.len(),
            forall|m: int|
                0 <= m < k ==> (#[trigger] hits@[m]).collider == self_collider || hits@[m].is_capsule,
        decreases n - k,
    {
        let h = hits[k];
        if h.collider != self_collider && !h.is_capsule {
            return true;
        }
        k = k + 1;
    }
    false
}

/// What the turret knows of one agent this tick.
#[derive(Clone, Debug)]
pub struct TurretCandidate {
    pub handle: u64,
    pub position: Vec3i,
    pub is_dead: bool,
    pub is_player: bool,
    /// Ordered intersections of the ray from the candidate to the turret.
    pub hits: Vec<RayHit>,
}

pub open spec fn hostility_admits(h: Hostility, c: TurretCandidate) -> bool {
    match h {
        Hostility::Player => c.is_player,
        Hostility::Monsters => !c.is_player,
        Hostility::All => true,
    }
}

/// Whether the turret may pick this candidate: alive, allowed by the
/// hostility rule, inside the frustum and not occluded.
pub open spec fn turret_eligible(
    hostility: Hostility,
    self_collider: u64,
    planes: Seq<Plane>,
    c: TurretCandidate,
) -> bool {
    &&& !c.is_dead
    &&& hostility_admits(hostility, c)
    &&& frustum_contains_spec(planes, c.position)
    &&& !occluded_spec(self_collider, c.hits@)
}

/// The first nearest eligible candidate, by squared distance to the turret.
pub open spec fn nearest_eligible(
    hostility: Hostility,
    self_collider: u64,
    planes: Seq<Plane>,
    self_position: Vec3i,
    cands: Seq<TurretCandidate>,
) -> Option<TurretCandidate>
    decreases cands.len(),
{
    if cands.len() == 0 {
        None
    } else {
        let prefix = nearest_eligible(
            hostility,
            self_collider,
            planes,
            self_position,
            cands.drop_last(),
        );
        let c = cands.last();
        if turret_eligible(hostility, self_collider, planes, c) {
            match prefix {
                None => Some(c),
                Some(b) => if dist_sq_spec(c.position, self_position) < dist_sq_spec(
                    b.position,
                    self_position,
                ) {
                    Some(c)
                } else {
                    Some(b)
                },
            }
        } else {
            prefix
        }
    }
}

/// The first candidate with the given handle.
pub open spec fn find_candidate(cands: Seq<TurretCandidate>, handle: u64) -> Option<int>
    decreases cands.len(),
{
    if cands.len() == 0 {
        None
    } else if cands[0].handle == handle {
        Some(0int)
    } else {
        match find_candidate(cands.drop_first(), handle) {
            Some(j) => Some(j + 1),
            None => None,
        }
    }
}

/// What target selection leaves in the target slot: the current target while
/// it is still alive, visible and allowed; otherwise the nearest eligible
/// candidate; otherwise none.
pub open spec fn select_target_spec(
    current: Option<u64>,
    hostility: Hostility,
    self_collider: u64,
    planes: Seq<Plane>,
    self_position: Vec3i,
    cands: Seq<TurretCandidate>,
) -> Option<u64> {
    let keep = match current {
        Some(h) => match find_candidate(cands, h) {
            Some(j) => turret_eligible(hostility, self_collider, planes, cands[j]),
            None => false,
        },
        None => false,
    };
    if keep {
        current
    } else {
        match nearest_eligible(hostility, self_collider, planes, self_position, cands) {
            Some(c) => Some(c.handle),
            None => None,
        }
    }
}

/// Law: selection is sound and complete. It returns no target exactly when no
/// candidate is eligible; what it returns is an eligible candidate; and when
/// it falls back to scanning, no eligible candidate is strictly nearer than
/// the chosen one.
pub proof fn lemma_nearest_eligible_correct(
    hostility: Hostility,
    self_collider: u64,
    planes: Seq<Plane>,
    self_position: Vec3i,
    cands: Seq<TurretCandidate>,
)
    ensures
        (nearest_eligible(hostility, self_collider, planes, self_position, cands) is None
            <==> forall|k: int|
            0 <= k < cands.len() ==> !turret_eligible(
                hostility,
                self_collider,
                planes,
                #[trigger] cands[k],
            )),
        match nearest_eligible(hostility, self_collider, planes, self_position, cands) {
            Some(b) => turret_eligible(hostility, self_collider, planes, b) && cands.contains(b)
                && forall|k: int|
                0 <= k < cands.len() && turret_eligible(
                    hostility,
                    self_collider,
                    planes,
                    #[trigger] cands[k],
                ) ==> dist_sq_spec(b.position, self_position) <= dist_sq_spec(
                    cands[k].position,
                    self_position,
                ),
            None => true,
        },
    decreases cands.len(),
{
    if cands.len() > 0 {
        let pre = cands.drop_last();
        let c = cands.last();
        lemma_nearest_eligible_correct(hostility, self_collider, planes, self_position, pre);
        assert(forall|k: int| 0 <= k < pre.len() ==> #[trigger] pre[k] == cands[k]);
        assert(c == cands[cands.len() - 1]);
        assert(cands.contains(c));
        match nearest_eligible(hostility, self_collider, planes, self_position, pre) {
            Some(b) => {
                if pre.contains(b) {
                    let m = choose|m: int| 0 <= m < pre.len() && pre[m] == b;
                    assert(cands[m] == b);
                    assert(cands.contains(b));
                }
            },
            None => {},
        }
        match nearest_eligible(hostility, self_collider, planes, self_position, cands) {
            Some(b) => {
                assert forall|k: int|
                    0 <= k < cands.len() && turret_eligible(
                        hostility,
                        self_collider,
                        planes,
                        #[trigger] cands[k],
                    ) implies dist_sq_spec(b.position, self_position) <= dist_sq_spec(
                    cands[k].position,
                    self_position,
                ) by {
                    if k < cands.len() - 1 {
                        assert(cands[k] == pre[k]);
                        let pb = nearest_eligible(
                            hostility,
                            self_collider,
                            planes,
                            self_position,
                            pre,
                        )->Some_0;
                        assert(dist_sq_spec(pb.position, self_position) <= dist_sq_spec(
                            pre[k].position,
                            self_position,
                        ));
                    }
                }
            },
            None => {},
        }
        if nearest_eligible(hostility, self_collider, planes, self_position, cands) is None {
            assert forall|k: int| 0 <= k < cands.len() implies !turret_eligible(
                hostility,
                self_collider,
                planes,
                #[trigger] cands[k],
            ) by {
                if k < cands.len() - 1 {
                    assert(cands[k] == pre[k]);
                }
            }
        }
        if forall|k: int|
            0 <= k < cands.len() ==> !turret_eligible(
                hostility,
                self_collider,
                planes,
                #[trigger] cands[k],
            ) {
            assert forall|k: int| 0 <= k < pre.len() implies !turret_eligible(
                hostility,
                self_collider,
                planes,
                #[trigger] pre[k],
            ) by {
                assert(pre[k] == cands[k]);
            }
            assert(!turret_eligible(hostility, self_collider, planes, cands[cands.len() - 1]));
        }
    }
}

/// The barrel's positional kick right after a shot, milli-units.
pub const BARREL_KICK_MILLI: i64 = -20_000;

/// The kick offset springs back toward zero by this rate each tick,
/// milli-scale.
pub const BARREL_SPRING_RATE_MILLI: i64 = 400;

/// How often the turret re-evaluates its target, milliseconds.
pub const TARGET_CHECK_INTERVAL_MS: i64 = 150;

/// Pitch the barrels park at while no target is held, milli-degrees.
pub const IDLE_PITCH_MDEG: i64 = 90_000;

/// Idle yaw drift, milli-degrees per second.
pub const IDLE_YAW_DRIFT_MDEG_PER_S: i64 = 50_000;

/// How many of the shot sounds exist.
pub const SHOT_SOUND_COUNT: u64 = 3;

/// One component of the kick offset after one spring-back step: reduced
/// toward zero by the spring rate, rounding toward zero.
pub open spec fn spring_component(v: int) -> int {
    if v >= 0 {
        v - v * (BARREL_SPRING_RATE_MILLI as int) / 1000
    } else {
        v + (-v) * (BARREL_SPRING_RATE_MILLI as int) / 1000
    }
}

pub open spec fn spring_offset(v: Vec3i) -> Vec3i {
    Vec3i {
        x: spring_component(v.x as int) as i64,
        y: spring_component(v.y as int) as i64,
        z: spring_component(v.z as int) as i64,
    }
}

proof fn lemma_spring_component_bounds(v: int)
    requires
        -(crate::vecmath::POS_BOUND as int) <= v <= crate::vecmath::POS_BOUND as int,
    ensures
        v >= 0 ==> 0 <= spring_component(v) <= v,
        v < 0 ==> v <= spring_component(v) <= 0,
        0 <= v * 400 <= 200_000_000_000 || 0 <= (-v) * 400 <= 200_000_000_000,
{
    if v >= 0 {
        assert(0 <= v * 400 <= 200_000_000_000) by (nonlinear_arith)
            requires
                0 <= v <= 500_000_000,
        ;
        assert(0 <= v * 400 / 1000 <= v) by (nonlinear_arith)
            requires
                0 <= v,
        ;
    } else {
        assert(0 <= (-v) * 400 <= 200_000_000_000) by (nonlinear_arith)
            requires
                0 < -v <= 500_000_000,
        ;
        assert(0 <= (-v) * 400 / 1000 <= -v) by (nonlinear_arith)
            requires
                0 < -v,
        ;
    }
}

fn spring_component_exec(v: i64) -> (r: i64)
    requires
        -crate::vecmath::POS_BOUND <= v <= crate::vecmath::POS_BOUND,
    ensures
        r == spring_component(v as int),
        -crate::vecmath::POS_BOUND <= r <= crate::vecmath::POS_BOUND,
{
    proof {
        lemma_spring_component_bounds(v as int);
    }
    if v >= 0 {
        v - v * 400 / 1000
    } else {
        v + (-v) * 400 / 1000
    }
}

/// One spring-back step of a barrel offset.
pub fn spring_offset_exec(v: &Vec3i) -> (r: Vec3i)
    requires
        v.in_bounds(),
    ensures
        r == spring_offset(*v),
        r.in_bounds(),
{
    Vec3i {
        x: spring_component_exec(v.x),
        y: spring_component_exec(v.y),
        z: spring_component_exec(v.z),
    }
}

/// The autonomous turret's persistent state. Each barrel is represented by
/// its current kick-back offset; the host owns the meshes and shoot points.
#[derive(Clone, Debug)]
pub struct Turret {
    pub shoot_mode: ShootMode,
    pub hostility: Hostility,
    pub yaw: SmoothAngle,
    pub pitch: SmoothAngle,
    pub shoot_interval_ms: i64,
    pub shoot_timer_ms: i64,
    pub barrel_index: u32,
    pub target_check_timer_ms: i64,
    pub target: Option<u64>,
    pub self_collider: u64,
    pub barrels: Vec<Vec3i>,
}

/// Ghost mirror of `Turret`.
pub ghost struct TurretView {
    pub shoot_mode: ShootMode,
    pub hostility: Hostility,
    pub yaw: SmoothAngle,
    pub pitch: SmoothAngle,
    pub shoot_interval_ms: int,
    pub shoot_timer_ms: int,
    pub barrel_index: u32,
    pub target_check_timer_ms: int,
    pub target: Option<u64>,
    pub self_collider: u64,
    pub barrels: Seq<Vec3i>,
}

impl View for Turret {
    type V = TurretView;

    open spec fn view(&self) -> TurretView {
        TurretView {
            shoot_mode: self.shoot_mode,
            hostility: self.hostility,
            yaw: self.yaw,
            pitch: self.pitch,
            shoot_interval_ms: self.shoot_interval_ms as int,
            shoot_timer_ms: self.shoot_timer_ms as int,
            barrel_index: self.barrel_index,
            target_check_timer_ms: self.target_check_timer_ms as int,
            target: self.target,
            self_collider: self.self_collider,
            barrels: self.barrels@,
        }
    }
}

impl TurretView {
    pub open spec fn wf(self) -> bool {
        &&& self.yaw.wf()
        &&& self.pitch.wf()
        &&& 0 <= self.shoot_interval_ms <= crate::context::TIMER_BOUND_MS as int
        &&& -(crate::context::TIMER_BOUND_MS as int) <= self.shoot_timer_ms <= crate::context::TIMER_BOUND_MS as int
        &&& -(crate::context::TIMER_BOUND_MS as int) <= self.target_check_timer_ms <= crate::context::TIMER_BOUND_MS as int
        &&& self.barrels.len() <= 64
        &&& (if self.barrels.len() == 0 {
            self.barrel_index == 0
        } else {
            (self.barrel_index as int) < self.barrels.len()
        })
        &&& forall|i: int| 0 <= i < self.barrels.len() ==> (#[trigger] self.barrels[i]).in_bounds()
    }
}

/// Aiming speed of a turret's two axes, milli-degrees per second (three
/// radians per second).
pub const TURRET_AIM_SPEED_MDEG_PER_S: i64 = 171_887;

impl Turret {
    /// A fresh turret: idle, aimed straight ahead, ready to check for a
    /// target at once.
    pub fn new(
        shoot_mode: ShootMode,
        hostility: Hostility,
        shoot_interval_ms: i64,
        self_collider: u64,
        barrel_count: usize,
    ) -> (r: Turret)
        requires
            0 <= shoot_interval_ms <= crate::context::TIMER_BOUND_MS,
            barrel_count <= 64,
        ensures
            r@.wf(),
            r.shoot_mode == shoot_mode,
            r.hostility == hostility,
            r.shoot_interval_ms == shoot_interval_ms,
            r.self_collider == self_collider,
            r.barrels@.len() == barrel_count,
            r.target is None,
            r.barrel_index == 0,
            r.shoot_timer_ms == 0,
            r.target_check_timer_ms == 0,
            forall|i: int| 0 <= i < r.barrels@.len() ==> (#[trigger] r.barrels@[i]).is_zero(),
    {
        let mut barrels: Vec<Vec3i> = Vec::new();
        let mut k: usize = 0;
        while k < barrel_count
            invariant
                0 <= k <= barrel_count,
                barrels@.len() == k,
                forall|i: int| 0 <= i < k ==> (#[trigger] barrels@[i]).is_zero()
                    && barrels@[i].in_bounds(),
            decreases barrel_count - k,
        {
            barrels.push(Vec3i { x: 0, y: 0, z: 0 });
            k = k + 1;
        }
        Turret {
            shoot_mode,
            hostility,
            yaw: SmoothAngle { angle: 0, target: 0, speed: TURRET_AIM_SPEED_MDEG_PER_S },
            pitch: SmoothAngle { angle: 0, target: 0, speed: TURRET_AIM_SPEED_MDEG_PER_S },
            shoot_interval_ms,
            shoot_timer_ms: 0,
            barrel_index: 0,
            target_check_timer_ms: 0,
            target: None,
            self_collider,
            barrels,
        }
    }
}

/// The barrel indices fired this tick, in firing order.
pub open spec fn shots_spec(t: TurretView) -> Seq<u32> {
    match t.shoot_mode {
        ShootMode::Consecutive => if t.barrels.len() > 0 {
            seq![t.barrel_index]
        } else {
            Seq::empty()
        },
        ShootMode::Simultaneously => Seq::new(t.barrels.len(), |i: int| i as u32),
    }
}

/// The barrel offsets after a tick in which `shots` fired: a fired barrel is
/// kicked back, then every offset springs toward zero.
pub open spec fn barrels_after(barrels: Seq<Vec3i>, shots: Seq<u32>) -> Seq<Vec3i> {
    Seq::new(
        barrels.len(),
        |i: int|
            spring_offset(
                if shots.contains(i as u32) {
                    Vec3i { x: BARREL_KICK_MILLI, y: 0, z: 0 }
                } else {
                    barrels[i]
                },
            ),
    )
}

proof fn lemma_find_candidate_some(cands: Seq<TurretCandidate>, h: u64)
    requires
        find_candidate(cands, h) is Some,
    ensures
        0 <= find_candidate(cands, h)->Some_0 < cands.len(),
        cands[find_candidate(cands, h)->Some_0].handle == h,
    decreases cands.len(),
{
    if cands.len() > 0 && cands[0].handle != h {
        lemma_find_candidate_some(cands.drop_first(), h);
        let j = find_candidate(cands.drop_first(), h)->Some_0;
        assert(cands.drop_first()[j] == cands[j + 1]);
    }
}

proof fn lemma_find_candidate_at(cands: Seq<TurretCandidate>, h: u64, k: int)
    requires
        0 <= k < cands.len(),
        forall|m: int| 0 <= m < k ==> (#[trigger] cands[m]).handle != h,
        cands[k].handle == h,
    ensures
        find_candidate(cands, h) == Some(k),
    decreases k,
{
    if k > 0 {
        assert(cands[0].handle != h);
        assert(forall|m: int|
            0 <= m < k - 1 ==> (#[trigger] cands.drop_first()[m]) == cands[m + 1]);
        lemma_find_candidate_at(cands.drop_first(), h, k - 1);
    }
}

/// Find the first candidate with the given handle.
fn find_candidate_exec(cands: &Vec<TurretCandidate>, h: u64) -> (r: Option<usize>)
    ensures
        (r is Some) == (find_candidate(cands@, h) is Some),
        r is Some ==> find_candidate(cands@, h) == Some(r->Some_0 as int) && r->Some_0
            < cands@.len(),
{
    let n = cands.len();
    let mut k: usize = 0;
    while k < n
        invariant
            0 <= k <= n,
            n == cands@.len(),
            forall|m: int| 0 <= m < k ==> (#[trigger] cands@[m]).handle != h,
        decreases n - k,
    {
        if cands[k].handle == h {
            proof {
                lemma_find_candidate_at(cands@, h, k as int);
            }
            return Some(k);
        }
        k = k + 1;
    }
    proof {
        if find_candidate(cands@, h) is Some {
            lemma_find_candidate_some(cands@, h);
        }
    }
    None
}

/// Whether the turret may pick this candidate.
fn candidate_eligible(
    hostility: Hostility,
    self_collider: u64,
    planes: &Vec<Plane>,
    c: &TurretCandidate,
) -> (r: bool)
    requires
        frustum_wf(planes@),
        c.position.in_bounds(),
    ensures
        r == turret_eligible(hostility, self_collider, planes@, *c),
{
    if c.is_dead {
        return false;
    }
    let allowed = match hostility {
        Hostility::Player => c.is_player,
        Hostility::Monsters => !c.is_player,
        Hostility::All => true,
    };
    if !allowed {
        return false;
    }
    if !frustum_contains(planes, &c.position) {
        return false;
    }
    !is_occluded(self_collider, &c.hits)
}

/// Scan for the nearest eligible candidate; earlier candidates win ties.
fn nearest_eligible_exec(
    hostility: Hostility,
    self_collider: u64,
    planes: &Vec<Plane>,
    self_position: Vec3i,
    cands: &Vec<TurretCandidate>,
) -> (r: Option<u64>)
    requires
        frustum_wf(planes@),
        self_position.in_bounds(),
        forall|i: int| 0 <= i < cands@.len() ==> (#[trigger] cands@[i]).position.in_bounds(),
    ensures
        r == match nearest_eligible(hostility, self_collider, planes@, self_position, cands@) {
            Some(b) => Some(b.handle),
            None => None::<u64>,
        },
{
    let n = cands.len();
    let mut best: Option<u64> = None;
    let mut best_dist: i64 = 0;
    let mut k: usize = 0;
    while k < n
        invariant
            0 <= k <= n,
            n == cands@.len(),
            frustum_wf(planes@),
            self_position.in_bounds(),
            forall|i: int| 0 <= i < cands@.len() ==> (#[trigger] cands@[i]).position.in_bounds(),
            ({
                let pre = nearest_eligible(
                    hostility,
                    self_collider,
                    planes@,
                    self_position,
                    cands@.take(k as int),
                );
                match pre {
                    Some(b) => best == Some(b.handle) && best_dist == dist_sq_spec(
                        b.position,
                        self_position,
                    ),
                    None => best is None,
                }
            }),
        decreases n - k,
    {
        proof {
            assert(cands@.take(k as int + 1).drop_last() =~= cands@.take(k as int));
            assert(cands@.take(k as int + 1).last() == cands@[k as int]);
        }
        let c = &cands[k];
        if candidate_eligible(hostility, self_collider, planes, c) {
            let d = dist_sq(&c.position, &self_position);
            match best {
                None => {
                    best = Some(c.handle);
                    best_dist = d;
                },
                Some(_) => {
                    if d < best_dist {
                        best = Some(c.handle);
                        best_dist = d;
                    }
                },
            }
        }
        k = k + 1;
    }
    proof {
        assert(cands@.take(n as int) =~= cands@);
    }
    best
}

/// Re-evaluate the target slot: keep a current target that is still alive,
/// visible and allowed; otherwise take the nearest eligible candidate.
fn select_target(
    current: Option<u64>,
    hostility: Hostility,
    self_collider: u64,
    planes: &Vec<Plane>,
    self_position: Vec3i,
    cands: &Vec<TurretCandidate>,
) -> (r: Option<u64>)
    requires
        frustum_wf(planes@),
        self_position.in_bounds(),
        forall|i: int| 0 <= i < cands@.len() ==> (#[trigger] cands@[i]).position.in_bounds(),
    ensures
        r == select_target_spec(current, hostility, self_collider, planes@, self_position, cands@),
{
    let keep = match current {
        Some(h) => match find_candidate_exec(cands, h) {
            Some(j) => candidate_eligible(hostility, self_collider, planes, &cands[j]),
            None => false,
        },
        None => false,
    };
    if keep {
        current
    } else {
        nearest_eligible_exec(hostility, self_collider, planes, self_position, cands)
    }
}

/// Ghost summary of one turret tick.
pub ghost struct TurretStep {
    pub t: TurretView,
    pub shots: Seq<u32>,
    pub targeting: bool,
}

/// The exact effect of one turret tick: advance the timers, re-select the
/// target when the check interval has elapsed, then either aim at and fire on
/// an engaged target or sweep idly.
pub open spec fn turret_step_spec(
    t: TurretView,
    cands: Seq<TurretCandidate>,
    planes: Seq<Plane>,
    self_position: Vec3i,
    aim_yaw_mdeg: int,
    aim_pitch_mdeg: Option<int>,
    dt: int,
) -> TurretStep {
    let ck0 = crate::bot::sat_sub_spec(t.target_check_timer_ms, dt);
    let target1 = if ck0 <= 0 {
        select_target_spec(t.target, t.hostility, t.self_collider, planes, self_position, cands)
    } else {
        t.target
    };
    let check1 = if ck0 <= 0 {
        TARGET_CHECK_INTERVAL_MS as int
    } else {
        ck0
    };
    let st0 = crate::bot::sat_sub_spec(t.shoot_timer_ms, dt);
    let engaged = match target1 {
        Some(h) => find_candidate(cands, h) is Some,
        None => false,
    };
    if engaged {
        let yaw1 = SmoothAngle { target: crate::angle::norm_spec(aim_yaw_mdeg) as i64, ..t.yaw };
        let pitch1 = match aim_pitch_mdeg {
            Some(p) => SmoothAngle { target: crate::angle::norm_spec(p) as i64, ..t.pitch },
            None => t.pitch,
        };
        let fired = st0 <= 0;
        let shots = if fired {
            shots_spec(t)
        } else {
            Seq::empty()
        };
        let st1 = if fired {
            t.shoot_interval_ms
        } else {
            st0
        };
        let idx1 = if fired && t.shoot_mode is Consecutive && t.barrels.len() > 0 {
            if t.barrel_index + 1 >= t.barrels.len() {
                0u32
            } else {
                (t.barrel_index + 1) as u32
            }
        } else {
            t.barrel_index
        };
        TurretStep {
            t: TurretView {
                yaw: yaw1.update_spec(dt),
                pitch: pitch1.update_spec(dt),
                shoot_timer_ms: st1,
                barrel_index: idx1,
                target_check_timer_ms: check1,
                target: target1,
                barrels: barrels_after(t.barrels, shots),
                ..t
            },
            shots,
            targeting: true,
        }
    } else {
        let yaw1 = SmoothAngle {
            target: crate::angle::norm_spec(
                t.yaw.angle + (IDLE_YAW_DRIFT_MDEG_PER_S as int) * dt / 1000,
            ) as i64,
            ..t.yaw
        };
        let pitch1 = SmoothAngle { target: IDLE_PITCH_MDEG, ..t.pitch };
        TurretStep {
            t: TurretView {
                yaw: yaw1.update_spec(dt),
                pitch: pitch1.update_spec(dt),
                shoot_timer_ms: st0,
                target_check_timer_ms: check1,
                target: target1,
                ..t
            },
            shots: Seq::empty(),
            targeting: target1 is Some,
        }
    }
}

fn contains_u32(v: &Vec<u32>, x: u32) -> (r: bool)
    ensures
        r == v@.contains(x),
{
    let n = v.len();
    let mut k: usize = 0;
    while k < n
        invariant
            0 <= k <= n,
            n == v@.len(),
            forall|m: int| 0 <= m < k ==> v@[m] != x,
        decreases n - k,
    {
        if v[k] == x {
            assert(v@.contains(x));
            return true;
        }
        k = k + 1;
    }
    proof {
        if v@.contains(x) {
            let m = choose|m: int| 0 <= m < v@.len() && v@[m] == x;
        }
    }
    false
}

/// What one turret tick asks of the host.
#[derive(Clone, Debug)]
pub struct TurretTickOutput {
    /// Barrel indices to fire from this tick, in order.
    pub shots: Vec<u32>,
    /// Which of the three shot sounds to play, one draw per shot.
    pub sounds: Vec<u64>,
    /// Whether a target is held (drives the projector color).
    pub targeting: bool,
    /// Rotation of the turret body about its vertical axis, milli-degrees.
    pub body_yaw_mdeg: i64,
    /// Rotation of the barrel stand about its side axis, milli-degrees.
    pub barrel_pitch_mdeg: i64,
}

/// One turret tick. The host supplies the candidates, the frustum planes
/// recomputed from the current stand orientation, and the two aim angles
/// toward the current target's most vulnerable point; the turret decides the
/// rest, as `turret_step_spec` states. One shot sound is drawn per shot;
/// nothing beyond its range is promised of the draw.
#[verifier::rlimit(100)]
#[verifier::spinoff_prover]
pub fn turret_update(
    t: &mut Turret,
    cands: &Vec<TurretCandidate>,
    planes: &Vec<Plane>,
    self_position: Vec3i,
    aim_yaw_mdeg: i64,
    aim_pitch_mdeg: Option<i64>,
    dt_ms: i64,
) -> (r: TurretTickOutput)
    requires
        old(t)@.wf(),
        frustum_wf(planes@),
        self_position.in_bounds(),
        forall|i: int| 0 <= i < cands@.len() ==> (#[trigger] cands@[i]).position.in_bounds(),
        -crate::angle::ANGLE_INPUT_BOUND <= aim_yaw_mdeg <= crate::angle::ANGLE_INPUT_BOUND,
        match aim_pitch_mdeg {
            Some(p) => -crate::angle::ANGLE_INPUT_BOUND <= p <= crate::angle::ANGLE_INPUT_BOUND,
            None => true,
        },
        0 <= dt_ms <= crate::angle::DT_BOUND_MS,
    ensures
        ({
            let step = turret_step_spec(
                old(t)@,
                cands@,
                planes@,
                self_position,
                aim_yaw_mdeg as int,
                match aim_pitch_mdeg {
                    Some(p) => Some(p as int),
                    None => None,
                },
                dt_ms as int,
            );
            &&& final(t)@ == step.t
            &&& final(t)@.wf()
            &&& r.shots@ == step.shots
            &&& r.targeting == step.targeting
            &&& r.sounds@.len() == step.shots.len()
            &&& forall|i: int| 0 <= i < r.sounds@.len() ==> (#[trigger] r.sounds@[i]) < SHOT_SOUND_COUNT
            &&& r.body_yaw_mdeg as int == 90_000 + step.t.yaw.angle as int
            &&& r.barrel_pitch_mdeg as int == step.t.pitch.angle as int - 90_000
        }),
{
    let ghost t0 = t@;
    let ck0 = crate::bot::sat_timer_sub(t.target_check_timer_ms, dt_ms);
    if ck0 <= 0 {
        t.target = select_target(
            t.target,
            t.hostility,
            t.self_collider,
            planes,
            self_position,
            cands,
        );
        t.target_check_timer_ms = TARGET_CHECK_INTERVAL_MS;
    } else {
        t.target_check_timer_ms = ck0;
    }
    let st0 = crate::bot::sat_timer_sub(t.shoot_timer_ms, dt_ms);
    let engaged = match t.target {
        Some(h) => find_candidate_exec(cands, h).is_some(),
        None => false,
    };
    let mut shots: Vec<u32> = Vec::new();
    if engaged {
        t.yaw.set_target(aim_yaw_mdeg);
        match aim_pitch_mdeg {
            Some(p) => t.pitch.set_target(p),
            None => {},
        }
        if st0 <= 0 {
            t.shoot_timer_ms = t.shoot_interval_ms;
            match t.shoot_mode {
                ShootMode::Consecutive => {
                    if t.barrels.len() > 0 {
                        shots.push(t.barrel_index);
                        let next = t.barrel_index + 1;
                        t.barrel_index = if next >= t.barrels.len() as u32 {
                            0
                        } else {
                            next
                        };
                        proof {
                            assert(shots@ =~= shots_spec(t0));
                        }
                    }
                },
                ShootMode::Simultaneously => {
                    let nb = t.barrels.len();
                    let mut k: usize = 0;
                    while k < nb
                        invariant
                            0 <= k <= nb,
                            nb <= 64,
                            shots@.len() == k,
                            forall|m: int| 0 <= m < k ==> (#[trigger] shots@[m]) == m as u32,
                        decreases nb - k,
                    {
                        shots.push(k as u32);
                        k = k + 1;
                    }
                    proof {
                        assert(shots@ =~= shots_spec(t0));
                    }
                },
            }
        } else {
            t.shoot_timer_ms = st0;
            proof {
                assert(shots@ =~= Seq::<u32>::empty());
            }
        }
        let nb = t.barrels.len();
        let mut i: usize = 0;
        let ghost barrels0 = t0.barrels;
        let ghost tpre = t@;
        proof {
            assert(t.barrels@ == barrels0);
        }
        while i < nb
            invariant
                0 <= i <= nb,
                nb == t.barrels@.len(),
                barrels0.len() == nb,
                (TurretView { barrels: tpre.barrels, ..t@ }) == tpre,
                forall|m: int| 0 <= m < barrels0.len() ==> (#[trigger] barrels0[m]).in_bounds(),
                forall|m: int|
                    i <= m < nb ==> (#[trigger] t.barrels@[m]) == barrels0[m],
                forall|m: int|
                    0 <= m < i ==> (#[trigger] t.barrels@[m]) == barrels_after(barrels0, shots@)[m],
            decreases nb - i,
        {
            let fired = contains_u32(&shots, i as u32);
            let base = if fired {
                Vec3i { x: BARREL_KICK_MILLI, y: 0, z: 0 }
            } else {
                t.barrels[i]
            };
            let sprung = spring_offset_exec(&base);
            t.barrels.set(i, sprung);
            i = i + 1;
        }
        proof {
            assert(t.barrels@ =~= barrels_after(barrels0, shots@));
        }
    } else {
        t.pitch.set_target(IDLE_PITCH_MDEG);
        let drift: i64 = t.yaw.angle + IDLE_YAW_DRIFT_MDEG_PER_S * dt_ms / 1000;
        t.yaw.set_target(drift);
        t.shoot_timer_ms = st0;
    }
    t.yaw.update(dt_ms);
    t.pitch.update(dt_ms);
    let mut sounds: Vec<u64> = Vec::new();
    let ns = shots.len();
    let mut k: usize = 0;
    while k < ns
        invariant
            0 <= k <= ns,
            sounds@.len() == k,
            forall|m: int| 0 <= m < k ==> (#[trigger] sounds@[m]) < SHOT_SOUND_COUNT,
        decreases ns - k,
    {
        sounds.push(crate::rng::random_u64_in(0, SHOT_SOUND_COUNT));
        k = k + 1;
    }
    let targeting = t.target.is_some();
    let body_yaw_mdeg: i64 = 90_000 + t.yaw.angle;
    let barrel_pitch_mdeg: i64 = t.pitch.angle - 90_000;
    TurretTickOutput { shots, sounds, targeting, body_yaw_mdeg, barrel_pitch_mdeg }
}

} // verus!
