//! Projectile hit resolution: how a registered hit turns into damage
//! messages. The physics (flight, contacts, ray casts) is the host's; what an
//! established hit is worth, and to whom, is decided here.

use vstd::prelude::*;
use crate::angle::iabs;
use crate::vecmath::{dist_sq, dist_sq_spec, Vec3i};

verus! {

/// Largest damage amount, milli-hitpoints.
pub const DAMAGE_BOUND_MHP: i64 = 1_000_000_000_000;

/// Largest damage scale factor, milli-scale.
pub const DAMAGE_SCALE_BOUND_MILLI: i64 = 1_000_000;

/// What a projectile deals on impact.
#[derive(Clone, Copy, Debug, PartialEq, Eq, Structural)]
pub enum Damage {
    /// Everyone within the radius of the impact point takes the amount.
    Splash { radius_milli: i64, amount_mhp: i64 },
    /// The struck character alone takes the amount.
    Point { amount_mhp: i64 },
}

impl Default for Damage {
    /// No damage, delivered pointwise.
    fn default() -> (r: Damage)
        ensures
            r == (Damage::Point { amount_mhp: 0 }),
    {
        Damage::Point { amount_mhp: 0 }
    }
}

pub open spec fn scale_amount(amount: int, k_milli: int) -> int {
    amount * iabs(k_milli) / 1000
}

impl Damage {
    pub open spec fn wf(self) -> bool {
        match self {
            Damage::Splash { radius_milli, amount_mhp } => {
                &&& 0 <= radius_milli <= crate::vecmath::POS_BOUND
                &&& 0 <= amount_mhp <= DAMAGE_BOUND_MHP
            },
            Damage::Point { amount_mhp } => 0 <= amount_mhp <= DAMAGE_BOUND_MHP,
        }
    }

    pub open spec fn scale_spec(self, k_milli: int) -> Damage {
        match self {
            Damage::Splash { radius_milli, amount_mhp } => Damage::Splash {
                radius_milli,
                amount_mhp: scale_amount(amount_mhp as int, k_milli) as i64,
            },
            Damage::Point { amount_mhp } => Damage::Point {
                amount_mhp: scale_amount(amount_mhp as int, k_milli) as i64,
            },
        }
    }

    pub open spec fn amount_spec(self) -> int {
        match self {
            Damage::Splash { amount_mhp, .. } => amount_mhp as int,
            Damage::Point { amount_mhp } => amount_mhp as int,
        }
    }

    /// Scale the amount by the magnitude of a milli-scale factor (a hitbox's
    /// damage factor); the splash radius is untouched.
    pub fn scale(&self, k_milli: i64) -> (r: Damage)
        requires
            self.wf(),
            -DAMAGE_SCALE_BOUND_MILLI <= k_milli <= DAMAGE_SCALE_BOUND_MILLI,
        ensures
            r == self.scale_spec(k_milli as int),
    {
        proof {
            lemma_scale_bounds(self.amount_spec(), k_milli as int);
        }
        let k_abs: i64 = if k_milli < 0 {
            -k_milli
        } else {
            k_milli
        };
        match self {
            Damage::Splash { radius_milli, amount_mhp } => Damage::Splash {
                radius_milli: *radius_milli,
                amount_mhp: *amount_mhp * k_abs / 1000,
            },
            Damage::Point { amount_mhp } => Damage::Point {
                amount_mhp: *amount_mhp * k_abs / 1000,
            },
        }
    }

    /// The raw amount, whatever the delivery.
    pub fn amount(&self) -> (r: i64)
        ensures
            r as int == self.amount_spec(),
    {
        match self {
            Damage::Splash { amount_mhp, .. } => *amount_mhp,
            Damage::Point { amount_mhp } => *amount_mhp,
        }
    }
}

proof fn lemma_scale_bounds(amount: int, k: int)
    requires
        0 <= amount <= DAMAGE_BOUND_MHP as int,
        -(DAMAGE_SCALE_BOUND_MILLI as int) <= k <= DAMAGE_SCALE_BOUND_MILLI as int,
    ensures
        0 <= amount * iabs(k) <= 1_000_000_000_000_000_000,
        amount * iabs(k) / 1000 <= amount * 1000,
{
    assert(0 <= amount * iabs(k) <= 1_000_000_000_000_000_000) by (nonlinear_arith)
        requires
            0 <= amount <= 1_000_000_000_000,
            0 <= iabs(k) <= 1_000_000,
    ;
    assert(amount * iabs(k) / 1000 <= amount * 1000) by (nonlinear_arith)
        requires
            0 <= amount,
            0 <= iabs(k) <= 1_000_000,
    ;
}

/// Who fired what at whom: everything needed to route one registered hit.
#[derive(Clone, Copy, Debug, PartialEq, Eq, Structural)]
pub struct HitInfo {
    /// Where the projectile struck, milli-units.
    pub position: Vec3i,
    /// The struck character, when the hit landed on one.
    pub hit_actor: u64,
    /// The character the shot is attributed to.
    pub shooter: u64,
    /// Chance of a critical hit, per-mill.
    pub critical_probability_permill: u32,
}

/// A character that might stand inside a splash.
#[derive(Clone, Copy, Debug, PartialEq, Eq, Structural)]
pub struct ActorInfo {
    pub handle: u64,
    pub position: Vec3i,
}

/// One damage message to deliver, fire-and-forget.
#[derive(Clone, Copy, Debug, PartialEq, Eq, Structural)]
pub struct DamageMsg {
    pub target: u64,
    pub dealer: u64,
    pub amount_mhp: i64,
    pub critical_probability_permill: u32,
}

pub open spec fn in_splash(hit_position: Vec3i, radius_milli: int, a: ActorInfo) -> bool {
    dist_sq_spec(a.position, hit_position) <= radius_milli * radius_milli
}

/// The messages a splash produces: one per actor within the radius, in list
/// order.
pub open spec fn splash_msgs(
    actors: Seq<ActorInfo>,
    hit: HitInfo,
    radius_milli: int,
    amount_mhp: int,
) -> Seq<DamageMsg>
    decreases actors.len(),
{
    if actors.len() == 0 {
        Seq::empty()
    } else {
        let rest = splash_msgs(actors.drop_last(), hit, radius_milli, amount_mhp);
        if in_splash(hit.position, radius_milli, actors.last()) {
            rest.push(
                DamageMsg {
                    target: actors.last().handle,
                    dealer: hit.shooter,
                    amount_mhp: amount_mhp as i64,
                    critical_probability_permill: hit.critical_probability_permill,
                },
            )
        } else {
            rest
        }
    }
}

/// The messages one resolved hit produces.
pub open spec fn resolve_hit_spec(damage: Damage, hit: HitInfo, actors: Seq<ActorInfo>) -> Seq<
    DamageMsg,
> {
    match damage {
        Damage::Splash { radius_milli, amount_mhp } => splash_msgs(
            actors,
            hit,
            radius_milli as int,
            amount_mhp as int,
        ),
        Damage::Point { amount_mhp } => seq![
            DamageMsg {
                target: hit.hit_actor,
                dealer: hit.shooter,
                amount_mhp,
                critical_probability_permill: hit.critical_probability_permill,
            },
        ],
    }
}

/// Turn one registered hit into damage messages: splash damage reaches every
/// actor within its radius of the impact point, point damage the struck
/// character alone.
pub fn resolve_hit(damage: &Damage, hit: &HitInfo, actors: &Vec<ActorInfo>) -> (r: Vec<DamageMsg>)
    requires
        damage.wf(),
        hit.position.in_bounds(),
        forall|i: int| 0 <= i < actors@.len() ==> (#[trigger] actors@[i]).position.in_bounds(),
    ensures
        r@ == resolve_hit_spec(*damage, *hit, actors@),
{
    let mut r: Vec<DamageMsg> = Vec::new();
    match damage {
        Damage::Splash { radius_milli, amount_mhp } => {
            let radius = *radius_milli;
            let amount = *amount_mhp;
            let n = actors.len();
            let mut k: usize = 0;
            proof {
                assert(actors@.take(0int) =~= Seq::<ActorInfo>::empty());
            }
            while k < n
                invariant
                    0 <= k <= n,
                    n == actors@.len(),
                    forall|i: int|
                        0 <= i < actors@.len() ==> (#[trigger] actors@[i]).position.in_bounds(),
                    hit.position.in_bounds(),
                    0 <= radius <= crate::vecmath::POS_BOUND,
                    r@ == splash_msgs(actors@.take(k as int), *hit, radius as int, amount as int),
                decreases n - k,
            {
                proof {
                    assert(actors@.take(k as int + 1).drop_last() =~= actors@.take(k as int));
                    assert(actors@.take(k as int + 1).last() == actors@[k as int]);
                    assert(0 <= (radius as int) * (radius as int) <= 250_000_000_000_000_000)
                        by (nonlinear_arith)
                        requires
                            0 <= radius <= 500_000_000,
                    ;
                }
                let a = actors[k];
                if dist_sq(&a.position, &hit.position) <= radius * radius {
                    r.push(
                        DamageMsg {
                            target: a.handle,
                            dealer: hit.shooter,
                            amount_mhp: amount,
                            critical_probability_permill: hit.critical_probability_permill,
                        },
                    );
                }
                k = k + 1;
            }
            proof {
                assert(actors@.take(n as int) =~= actors@);
            }
        },
        Damage::Point { amount_mhp } => {
            r.push(
                DamageMsg {
                    target: hit.hit_actor,
                    dealer: hit.shooter,
                    amount_mhp: *amount_mhp,
                    critical_probability_permill: hit.critical_probability_permill,
                },
            );
            proof {
                assert(r@ =~= resolve_hit_spec(*damage, *hit, actors@));
            }
        },
    }
    r
}

/// One physics contact the projectile's collider reported this tick.
#[derive(Clone, Copy, Debug, PartialEq, Eq, Structural)]
pub struct ContactInfo {
    pub collider1: u64,
    pub collider2: u64,
}

/// The hitbox colliders one character owns.
#[derive(Clone, Debug)]
pub struct ActorHitboxes {
    pub handle: u64,
    pub colliders: Vec<u64>,
}

/// The collider on the other side of a contact with the projectile's own.
pub open spec fn other_collider(self_collider: u64, c: ContactInfo) -> u64 {
    if c.collider1 == self_collider {
        c.collider2
    } else {
        c.collider1
    }
}

/// The first character whose hitboxes hold the collider.
pub open spec fn hitbox_owner(actors: Seq<ActorHitboxes>, collider: u64) -> Option<u64>
    decreases actors.len(),
{
    if actors.len() == 0 {
        None
    } else if actors[0].colliders@.contains(collider) {
        Some(actors[0].handle)
    } else {
        hitbox_owner(actors.drop_first(), collider)
    }
}

/// The first contact that lands on some character's hitbox: the struck
/// character and the hitbox collider struck.
pub open spec fn first_contact_hit(
    self_collider: u64,
    contacts: Seq<ContactInfo>,
    actors: Seq<ActorHitboxes>,
) -> Option<(u64, u64)>
    decreases contacts.len(),
{
    if contacts.len() == 0 {
        None
    } else {
        let other = other_collider(self_collider, contacts[0]);
        match hitbox_owner(actors, other) {
            Some(h) => Some((h, other)),
            None => first_contact_hit(self_collider, contacts.drop_first(), actors),
        }
    }
}

fn contains_u64(v: &Vec<u64>, x: u64) -> (r: bool)
    ensures
        r == v@.contains(x),
{
    let n = v.len();
    let mut k: usize = 0;
    while k < n
        invariant
            0 <= k <= n,
            n == v@.len(),
            forall|m: int| 0 <= m < k ==> v@[m] != x,
        decreases n - k,
    {
        if v[k] == x {
            assert(v@.contains(x));
            return true;
        }
        k = k + 1;
    }
    proof {
        if v@.contains(x) {
            let m = choose|m: int| 0 <= m < v@.len() && v@[m] == x;
        }
    }
    false
}

fn hitbox_owner_exec(actors: &Vec<ActorHitboxes>, collider: u64) -> (r: Option<u64>)
    ensures
        r == hitbox_owner(actors@, collider),
{
    let n = actors.len();
    let mut k: usize = 0;
    proof {
        assert(actors@.skip(0int) =~= actors@);
    }
    while k < n
        invariant
            0 <= k <= n,
            n == actors@.len(),
            hitbox_owner(actors@, collider) == hitbox_owner(actors@.skip(k as int), collider),
        decreases n - k,
    {
        proof {
            assert(actors@.skip(k as int)[0] == actors@[k as int]);
            assert(actors@.skip(k as int).drop_first() =~= actors@.skip(k as int + 1));
        }
        if contains_u64(&actors[k].colliders, collider) {
            return Some(actors[k].handle);
        }
        k = k + 1;
    }
    proof {
        assert(actors@.skip(n as int).len() == 0);
    }
    None
}

/// Walk the tick's contacts in order and report the first that lands on a
/// character's hitbox. Contacts on anything else (walls, props, the floor)
/// name no character and are passed over.
pub fn find_contact_hit(
    self_collider: u64,
    contacts: &Vec<ContactInfo>,
    actors: &Vec<ActorHitboxes>,
) -> (r: Option<(u64, u64)>)
    ensures
        r == first_contact_hit(self_collider, contacts@, actors@),
{
    let n = contacts.len();
    let mut k: usize = 0;
    proof {
        assert(contacts@.skip(0int) =~= contacts@);
    }
    while k < n
        invariant
            0 <= k <= n,
            n == contacts@.len(),
            first_contact_hit(self_collider, contacts@, actors@) == first_contact_hit(
                self_collider,
                contacts@.skip(k as int),
                actors@,
            ),
        decreases n - k,
    {
        proof {
            assert(contacts@.skip(k as int)[0] == contacts@[k as int]);
            assert(contacts@.skip(k as int).drop_first() =~= contacts@.skip(k as int + 1));
        }
        let c = contacts[k];
        let other = if c.collider1 == self_collider {
            c.collider2
        } else {
            c.collider1
        };
        match hitbox_owner_exec(actors, other) {
            Some(h) => {
                return Some((h, other));
            },
            None => {},
        }
        k = k + 1;
    }
    proof {
        assert(contacts@.skip(n as int).len() == 0);
    }
    None
}

/// Chance of a critical hit by who fired the projectile, per-mill: a weapon's
/// own base chance, a flat one percent for a turret, none for anything else.
#[derive(Clone, Copy, Debug, PartialEq, Eq, Structural)]
pub enum ProjectileOwner {
    Weapon { base_critical_permill: u32 },
    TurretOwner,
    Other,
}

pub open spec fn critical_permill_spec(owner: ProjectileOwner) -> u32 {
    match owner {
        ProjectileOwner::Weapon { base_critical_permill } => base_critical_permill,
        ProjectileOwner::TurretOwner => 10u32,
        ProjectileOwner::Other => 0u32,
    }
}

/// The critical-hit chance a hit carries, decided by the projectile's owner.
pub fn critical_permill(owner: &ProjectileOwner) -> (r: u32)
    ensures
        r == critical_permill_spec(*owner),
{
    match owner {
        ProjectileOwner::Weapon { base_critical_permill } => *base_critical_permill,
        ProjectileOwner::TurretOwner => 10,
        ProjectileOwner::Other => 0,
    }
}

} // verus!
