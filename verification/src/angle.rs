//! Angles in milli-degrees, normalized into the half-open range
//! `[-180_000, 180_000)`, and the rate-limited smoothed-angle primitive that
//! aiming and recoil are built on.

use vstd::prelude::*;
use vstd::arithmetic::div_mod::{
    lemma_fundamental_div_mod, lemma_mod_division_less_than_divisor, lemma_mod_multiples_vanish,
};

verus! {

/// Half a turn, in milli-degrees.
pub const HALF_TURN_MDEG: i64 = 180_000;
/// A full turn, in milli-degrees.
pub const FULL_TURN_MDEG: i64 = 360_000;

/// Largest raw angle magnitude the normalizer accepts.
pub const ANGLE_INPUT_BOUND: i64 = 1_000_000_000_000;

/// Largest angular speed, in milli-degrees per second.
pub const SPEED_BOUND_MDEG_PER_S: i64 = 1_000_000_000;

/// Largest time step, in milliseconds.
pub const DT_BOUND_MS: i64 = 1_000_000;

pub open spec fn iabs(x: int) -> int {
    if x < 0 {
        -x
    } else {
        x
    }
}

/// The representative of an angle in `[-180_000, 180_000)`.
pub open spec fn norm_spec(a: int) -> int {
    (a + 180_000) % 360_000 - 180_000
}

pub open spec fn is_norm(a: int) -> bool {
    -180_000 <= a < 180_000
}

/// The signed shortest-path difference from `b` to `a`.
pub open spec fn ang_diff(a: int, b: int) -> int {
    norm_spec(a - b)
}

/// The wrapped angular distance between `a` and `b`.
pub open spec fn ang_dist(a: int, b: int) -> int {
    iabs(ang_diff(a, b))
}

pub proof fn lemma_norm_range(a: int)
    ensures
        is_norm(norm_spec(a)),
{
    lemma_mod_division_less_than_divisor(a + 180_000, 360_000);
}

/// A normalized angle is its own representative.
pub proof fn lemma_norm_small(a: int)
    requires
        is_norm(a),
    ensures
        norm_spec(a) == a,
{
    lemma_mod_multiples_vanish(0, a + 180_000, 360_000);
    lemma_mod_division_less_than_divisor(a + 180_000, 360_000);
    lemma_fundamental_div_mod(a + 180_000, 360_000);
    let q = (a + 180_000) / 360_000;
    if q < 0 {
        assert(a + 180_000 == 360_000 * q + (a + 180_000) % 360_000);
        assert(360_000 * q <= -360_000) by (nonlinear_arith)
            requires
                q <= -1,
        ;
    } else if q > 0 {
        assert(360_000 * q >= 360_000) by (nonlinear_arith)
            requires
                q >= 1,
        ;
    }
    assert(q == 0);
}

/// Normalization is invariant under adding full turns.
pub proof fn lemma_norm_periodic(a: int, k: int)
    ensures
        norm_spec(a + 360_000 * k) == norm_spec(a),
{
    lemma_mod_multiples_vanish(k, a + 180_000, 360_000);
    assert(360_000 * k + (a + 180_000) == (a + 360_000 * k) + 180_000);
}

/// Normalizing an operand first does not change the result.
pub proof fn lemma_norm_congruent(a: int, y: int)
    ensures
        norm_spec(norm_spec(a) + y) == norm_spec(a + y),
{
    lemma_fundamental_div_mod(a + 180_000, 360_000);
    let q = (a + 180_000) / 360_000;
    assert(norm_spec(a) == a - 360_000 * q);
    lemma_norm_periodic(norm_spec(a) + y, q);
    assert(norm_spec(a) + y + 360_000 * q == a + y);
}

/// Normalize a raw angle into `[-180_000, 180_000)`.
pub fn norm_angle(a: i64) -> (r: i64)
    requires
        -ANGLE_INPUT_BOUND <= a <= ANGLE_INPUT_BOUND,
    ensures
        r == norm_spec(a as int),
        is_norm(r as int),
{
    proof {
        lemma_norm_range(a as int);
        // 1_000_000_080_000 is a multiple of a full turn.
        lemma_norm_periodic(a as int, 2_777_778);
        assert(360_000 * 2_777_778 == 1_000_000_080_000);
    }
    let shifted: i64 = a + 1_000_000_080_000;
    let e: i64 = (shifted + 180_000) % 360_000;
    e - 180_000
}

/// Rate-limited scalar approach toward a target angle: each update moves
/// `angle` toward `target` along the shortest wrapped path by at most
/// `speed * dt`, never overshooting.
#[derive(Clone, Copy, Debug, PartialEq, Eq, Structural)]
pub struct SmoothAngle {
    /// Current angle, milli-degrees, normalized.
    pub angle: i64,
    /// Desired angle, milli-degrees, normalized.
    pub target: i64,
    /// Angular speed, milli-degrees per second.
    pub speed: i64,
}

impl SmoothAngle {
    pub open spec fn wf(self) -> bool {
        &&& is_norm(self.angle as int)
        &&& is_norm(self.target as int)
        &&& 0 <= self.speed <= SPEED_BOUND_MDEG_PER_S
    }

    /// The state after one update step of `dt` milliseconds.
    pub open spec fn update_spec(self, dt: int) -> SmoothAngle {
        let step = self.speed * dt / 1000;
        let delta = ang_diff(self.target as int, self.angle as int);
        let moved = if iabs(delta) <= step {
            self.target as int
        } else if delta >= 0 {
            norm_spec(self.angle + step)
        } else {
            norm_spec(self.angle - step)
        };
        SmoothAngle { angle: moved as i64, target: self.target, speed: self.speed }
    }

    pub fn new(angle: i64, target: i64, speed: i64) -> (r: SmoothAngle)
        requires
            -ANGLE_INPUT_BOUND <= angle <= ANGLE_INPUT_BOUND,
            -ANGLE_INPUT_BOUND <= target <= ANGLE_INPUT_BOUND,
            0 <= speed <= SPEED_BOUND_MDEG_PER_S,
        ensures
            r.wf(),
            r.angle == norm_spec(angle as int),
            r.target == norm_spec(target as int),
            r.speed == speed,
    {
        SmoothAngle { angle: norm_angle(angle), target: norm_angle(target), speed }
    }

    /// Store a desired angle; the stored value is the normalized representative.
    pub fn set_target(&mut self, v: i64)
        requires
            old(self).wf(),
            -ANGLE_INPUT_BOUND <= v <= ANGLE_INPUT_BOUND,
        ensures
            final(self).wf(),
            final(self).target == norm_spec(v as int),
            final(self).angle == old(self).angle,
            final(self).speed == old(self).speed,
    {
        self.target = norm_angle(v);
    }

    /// How far the current angle is from the target, wrapped.
    pub open spec fn remaining(self) -> int {
        ang_dist(self.target as int, self.angle as int)
    }

    /// Move `angle` toward `target` by at most `speed * dt / 1000`.
    pub fn update(&mut self, dt: i64)
        requires
            old(self).wf(),
            0 <= dt <= DT_BOUND_MS,
        ensures
            *final(self) == old(self).update_spec(dt as int),
            final(self).wf(),
            // The angle moves by at most `speed * dt`.
            ang_dist(final(self).angle as int, old(self).angle as int) <= old(self).speed * dt
                / 1000,
            // The angle approaches the target by exactly the step taken and
            // never overshoots.
            final(self).remaining() == if old(self).remaining() <= old(self).speed * dt / 1000 {
                0
            } else {
                old(self).remaining() - old(self).speed * dt / 1000
            },
    {
        proof {
            lemma_smooth_angle_update(*self, dt as int);
            assert(self.speed * dt <= 1_000_000_000 * 1_000_000) by (nonlinear_arith)
                requires
                    0 <= self.speed <= 1_000_000_000,
                    0 <= dt <= 1_000_000,
            ;
            assert(self.speed * dt >= 0) by (nonlinear_arith)
                requires
                    self.speed >= 0,
                    dt >= 0,
            ;
        }
        let step_wide: i64 = self.speed * dt / 1000;
        // speed * dt / 1000 <= SPEED_BOUND * DT_BOUND / 1000, far below i64::MAX,
        // and HALF_TURN_MDEG caps the useful step anyway.
        let step: i64 = if step_wide > FULL_TURN_MDEG {
            proof {
                lemma_norm_range(self.target - self.angle);
            }
            FULL_TURN_MDEG
        } else {
            step_wide
        };
        let delta: i64 = norm_angle(self.target - self.angle);
        let mag: i64 = if delta < 0 {
            -delta
        } else {
            delta
        };
        if mag <= step {
            self.angle = self.target;
        } else if delta >= 0 {
            self.angle = norm_angle(self.angle + step);
        } else {
            self.angle = norm_angle(self.angle - step);
        }
    }
}

/// Law: one smoothed-angle update moves the angle by at most `speed * dt`
/// along the wrapped circle, approaches the target by exactly the step taken,
/// and never overshoots the target.
pub proof fn lemma_smooth_angle_update(s: SmoothAngle, dt: int)
    requires
        s.wf(),
        0 <= dt <= DT_BOUND_MS as int,
    ensures
        s.update_spec(dt).wf(),
        s.update_spec(dt).target == s.target,
        s.update_spec(dt).speed == s.speed,
        ang_dist(s.update_spec(dt).angle as int, s.angle as int) <= s.speed * dt / 1000,
        s.update_spec(dt).remaining() == if s.remaining() <= s.speed * dt / 1000 {
            0
        } else {
            s.remaining() - s.speed * dt / 1000
        },
{
    let step = s.speed * dt / 1000;
    assert(step >= 0) by {
        assert(s.speed * dt >= 0) by (nonlinear_arith)
            requires
                s.speed >= 0,
                dt >= 0,
        ;
    }
    let d_raw = s.target - s.angle;
    let delta = ang_diff(s.target as int, s.angle as int);
    lemma_norm_range(d_raw);
    // delta and d_raw differ by a whole number of turns.
    lemma_fundamental_div_mod(d_raw + 180_000, 360_000);
    let q = (d_raw + 180_000) / 360_000;
    assert(delta == d_raw - 360_000 * q);
    let r = s.update_spec(dt);
    assert(s.remaining() == iabs(delta));
    if iabs(delta) <= step {
        lemma_norm_small(0);
        assert(r.angle == s.target);
        assert(ang_dist(r.angle as int, s.angle as int) == iabs(delta));
    } else if delta >= 0 {
        // 0 <= step < delta < 180_000: the angle advances without wrapping
        // past the target.
        assert(r.angle == norm_spec(s.angle + step));
        lemma_norm_congruent_diff(s.angle as int, step, s.angle as int);
        lemma_norm_small(step);
        assert(ang_diff(r.angle as int, s.angle as int) == step);
        lemma_norm_congruent_diff(s.angle as int, step, s.target as int);
        assert(s.angle + step - s.target == step - delta - 360_000 * q);
        lemma_norm_periodic(step - delta, -q);
        assert(step - delta + 360_000 * (-q) == step - delta - 360_000 * q);
        lemma_norm_small(step - delta);
        assert(ang_diff(r.angle as int, s.target as int) == step - delta);
        lemma_ang_dist_sym(s.target as int, r.angle as int);
        assert(r.remaining() == delta - step);
        lemma_norm_range(s.angle + step);
    } else {
        assert(r.angle == norm_spec(s.angle - step));
        lemma_norm_congruent_diff(s.angle as int, -step, s.angle as int);
        lemma_norm_small(-step);
        assert(ang_diff(r.angle as int, s.angle as int) == -step);
        lemma_norm_congruent_diff(s.angle as int, -step, s.target as int);
        assert(s.angle - step - s.target == -step - delta - 360_000 * q);
        lemma_norm_periodic(-step - delta, -q);
        assert(-step - delta + 360_000 * (-q) == -step - delta - 360_000 * q);
        if step == 0 {
            if -step - delta == 180_000 {
                // Exactly opposite target: the representative of the distance
                // wraps to -180_000, with the same magnitude.
                assert(norm_spec(-step - delta) == -180_000) by {
                    lemma_norm_periodic(-180_000, 1);
                    lemma_norm_small(-180_000);
                }
            } else {
                lemma_norm_small(-step - delta);
            }
        } else {
            // 1 <= step < -delta <= 180_000: in range without wrapping.
            lemma_norm_small(-step - delta);
        }
        assert(iabs(ang_diff(r.angle as int, s.target as int)) == -delta - step);
        lemma_ang_dist_sym(s.target as int, r.angle as int);
        assert(r.remaining() == -delta - step);
        lemma_norm_range(s.angle - step);
    }
}

/// `ang_diff(norm(a + d), b) == norm(a + d - b)`.
proof fn lemma_norm_congruent_diff(a: int, d: int, b: int)
    ensures
        ang_diff(norm_spec(a + d), b) == norm_spec(a + d - b),
{
    lemma_norm_congruent(a + d, -b);
}

/// Wrapped distance is symmetric.
pub proof fn lemma_ang_dist_sym(a: int, b: int)
    ensures
        ang_dist(a, b) == ang_dist(b, a),
{
    lemma_norm_range(a - b);
    lemma_norm_range(b - a);
    lemma_fundamental_div_mod(a - b + 180_000, 360_000);
    lemma_fundamental_div_mod(b - a + 180_000, 360_000);
    let q1 = (a - b + 180_000) / 360_000;
    let q2 = (b - a + 180_000) / 360_000;
    let d1 = ang_diff(a, b);
    let d2 = ang_diff(b, a);
    assert(d1 == a - b - 360_000 * q1);
    assert(d2 == b - a - 360_000 * q2);
    assert(d1 + d2 == -360_000 * (q1 + q2)) by (nonlinear_arith)
        requires
            d1 == a - b - 360_000 * q1,
            d2 == b - a - 360_000 * q2,
    ;
    let qs = q1 + q2;
    if qs <= -2 {
        assert(-360_000 * qs >= 720_000) by (nonlinear_arith)
            requires
                qs <= -2,
        ;
    } else if qs >= 1 {
        assert(-360_000 * qs <= -360_000) by (nonlinear_arith)
            requires
                qs >= 1,
        ;
    }
    // So d1 + d2 is 0 or -360_000: either the two are negations of each
    // other, or both equal -180_000.
    assert(d1 + d2 == 0 || d1 + d2 == -360_000);
}

} // verus!
