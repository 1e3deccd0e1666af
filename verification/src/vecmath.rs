//! Integer vector math on positions in milli-units.

use vstd::prelude::*;

verus! {

/// Largest position coordinate magnitude, in milli-units. Chosen so that a
/// squared distance between two in-bounds points fits an `i64`.
pub const POS_BOUND: i64 = 500_000_000;

/// A point or direction in world or bone-local space, milli-units.
#[derive(Clone, Copy, Debug, PartialEq, Eq, Structural)]
pub struct Vec3i {
    pub x: i64,
    pub y: i64,
    pub z: i64,
}

impl Vec3i {
    pub open spec fn in_bounds(self) -> bool {
        &&& -POS_BOUND <= self.x <= POS_BOUND
        &&& -POS_BOUND <= self.y <= POS_BOUND
        &&& -POS_BOUND <= self.z <= POS_BOUND
    }

    pub open spec fn is_zero(self) -> bool {
        self.x == 0 && self.y == 0 && self.z == 0
    }

    pub fn zero() -> (r: Vec3i)
        ensures
            r.is_zero(),
            r.in_bounds(),
    {
        Vec3i { x: 0, y: 0, z: 0 }
    }
}

pub open spec fn dist_sq_spec(a: Vec3i, b: Vec3i) -> int {
    let dx = a.x - b.x;
    let dy = a.y - b.y;
    let dz = a.z - b.z;
    dx * dx + dy * dy + dz * dz
}

proof fn lemma_sq_bound(d: int)
    requires
        -1_000_000_000 <= d <= 1_000_000_000,
    ensures
        0 <= d * d <= 1_000_000_000_000_000_000,
{
    assert(0 <= d * d <= 1_000_000_000_000_000_000) by (nonlinear_arith)
        requires
            -1_000_000_000 <= d <= 1_000_000_000,
    ;
}

/// Squared Euclidean distance between two in-bounds points.
pub fn dist_sq(a: &Vec3i, b: &Vec3i) -> (r: i64)
    requires
        a.in_bounds(),
        b.in_bounds(),
    ensures
        r == dist_sq_spec(*a, *b),
        0 <= r <= 3_000_000_000_000_000_000,
{
    proof {
        lemma_sq_bound(a.x - b.x);
        lemma_sq_bound(a.y - b.y);
        lemma_sq_bound(a.z - b.z);
    }
    let dx: i64 = a.x - b.x;
    let dy: i64 = a.y - b.y;
    let dz: i64 = a.z - b.z;
    dx * dx + dy * dy + dz * dz
}

pub open spec fn cross_spec(a: Vec3i, b: Vec3i) -> Vec3i {
    Vec3i {
        x: (a.y * b.z - a.z * b.y) as i64,
        y: (a.z * b.x - a.x * b.z) as i64,
        z: (a.x * b.y - a.y * b.x) as i64,
    }
}

proof fn lemma_prod_bound(a: int, b: int)
    requires
        -500_000_000 <= a <= 500_000_000,
        -500_000_000 <= b <= 500_000_000,
    ensures
        -250_000_000_000_000_000 <= a * b <= 250_000_000_000_000_000,
{
    assert(-250_000_000_000_000_000 <= a * b <= 250_000_000_000_000_000) by (nonlinear_arith)
        requires
            -500_000_000 <= a <= 500_000_000,
            -500_000_000 <= b <= 500_000_000,
    ;
}

/// Cross product of two in-bounds vectors. The result is a rotation axis; its
/// magnitude is never read, so the wide intermediate scale is kept.
pub fn cross(a: &Vec3i, b: &Vec3i) -> (r: Vec3i)
    requires
        a.in_bounds(),
        b.in_bounds(),
    ensures
        r == cross_spec(*a, *b),
{
    proof {
        lemma_prod_bound(a.y as int, b.z as int);
        lemma_prod_bound(a.z as int, b.y as int);
        lemma_prod_bound(a.z as int, b.x as int);
        lemma_prod_bound(a.x as int, b.z as int);
        lemma_prod_bound(a.x as int, b.y as int);
        lemma_prod_bound(a.y as int, b.x as int);
    }
    Vec3i {
        x: a.y * b.z - a.z * b.y,
        y: a.z * b.x - a.x * b.z,
        z: a.x * b.y - a.y * b.x,
    }
}

} // verus!
