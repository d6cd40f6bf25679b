//! Per-tick movement integration and the fixed-point helpers the steering
//! logic needs. All quantities live in milli-units (1000 = one world unit,
//! or one world unit per second), with tick deltas in milliseconds.

use vstd::prelude::*;

use crate::types::Vec3Milli;

verus! {

/// Coordinates, velocities and accelerations stay within this bound
/// (one hundred thousand world units), keeping every product of the
/// integrators far from overflow.
pub const COORD_LIMIT_MILLI: i64 = 100_000_000;

/// A tick never advances time by more than this (1000 seconds).
pub const DELTA_LIMIT_MS: u64 = 1_000_000;

/// Velocity of a movable object, in milli-units per second.
#[derive(Debug, Clone, Copy, PartialEq, Eq, Structural)]
pub struct Velocity(pub Vec3Milli);

/// Acceleration of a movable object, in milli-units per second squared.
#[derive(Debug, Clone, Copy, PartialEq, Eq, Structural)]
pub struct Acceleration(pub Vec3Milli);

/// A per-second rate scaled by a millisecond delta, truncated toward zero:
/// the fixed-point counterpart of `rate * seconds`.
pub open spec fn spec_scale_by_millis(value: int, delta_ms: int) -> int {
    if value >= 0 {
        (value * delta_ms) / 1000
    } else {
        -((-value * delta_ms) / 1000)
    }
}

/// `value * delta_ms / 1000`, truncated toward zero.
pub fn scale_by_millis(value: i64, delta_ms: u64) -> (r: i64)
    requires
        -COORD_LIMIT_MILLI <= value <= COORD_LIMIT_MILLI,
        delta_ms <= DELTA_LIMIT_MS,
    ensures
        r == spec_scale_by_millis(value as int, delta_ms as int),
        -COORD_LIMIT_MILLI * DELTA_LIMIT_MS <= r <= COORD_LIMIT_MILLI * DELTA_LIMIT_MS,
{
    if value >= 0 {
        let v = value as u64;
        proof {
            assert(v as int * delta_ms as int <= 100_000_000_000_000int) by (nonlinear_arith)
                requires
                    0 <= v as int <= 100_000_000int,
                    0 <= delta_ms as int <= 1_000_000int;
        }
        let scaled = v * delta_ms / 1000;
        scaled as i64
    } else {
        let v = (-value) as u64;
        proof {
            assert(v as int * delta_ms as int <= 100_000_000_000_000int) by (nonlinear_arith)
                requires
                    0 <= v as int <= 100_000_000int,
                    0 <= delta_ms as int <= 1_000_000int;
        }
        let scaled = v * delta_ms / 1000;
        -(scaled as i64)
    }
}

/// Integrate acceleration into velocity over this tick's delta.
pub fn update_velocity(velocity: &mut Velocity, acceleration: &Acceleration, delta_ms: u64)
    requires
        delta_ms <= DELTA_LIMIT_MS,
        -COORD_LIMIT_MILLI <= acceleration.0.x <= COORD_LIMIT_MILLI,
        -COORD_LIMIT_MILLI <= acceleration.0.y <= COORD_LIMIT_MILLI,
        -COORD_LIMIT_MILLI <= acceleration.0.z <= COORD_LIMIT_MILLI,
        i64::MIN <= old(velocity).0.x + spec_scale_by_millis(
            acceleration.0.x as int,
            delta_ms as int,
        ) <= i64::MAX,
        i64::MIN <= old(velocity).0.y + spec_scale_by_millis(
            acceleration.0.y as int,
            delta_ms as int,
        ) <= i64::MAX,
        i64::MIN <= old(velocity).0.z + spec_scale_by_millis(
            acceleration.0.z as int,
            delta_ms as int,
        ) <= i64::MAX,
    ensures
        final(velocity).0.x == old(velocity).0.x + spec_scale_by_millis(
            acceleration.0.x as int,
            delta_ms as int,
        ),
        final(velocity).0.y == old(velocity).0.y + spec_scale_by_millis(
            acceleration.0.y as int,
            delta_ms as int,
        ),
        final(velocity).0.z == old(velocity).0.z + spec_scale_by_millis(
            acceleration.0.z as int,
            delta_ms as int,
        ),
{
    velocity.0.x = velocity.0.x + scale_by_millis(acceleration.0.x, delta_ms);
    velocity.0.y = velocity.0.y + scale_by_millis(acceleration.0.y, delta_ms);
    velocity.0.z = velocity.0.z + scale_by_millis(acceleration.0.z, delta_ms);
}

/// Integrate velocity into position over this tick's delta.
pub fn update_position(translation: &mut Vec3Milli, velocity: &Velocity, delta_ms: u64)
    requires
        delta_ms <= DELTA_LIMIT_MS,
        -COORD_LIMIT_MILLI <= velocity.0.x <= COORD_LIMIT_MILLI,
        -COORD_LIMIT_MILLI <= velocity.0.y <= COORD_LIMIT_MILLI,
        -COORD_LIMIT_MILLI <= velocity.0.z <= COORD_LIMIT_MILLI,
        i64::MIN <= old(translation).x + spec_scale_by_millis(
            velocity.0.x as int,
            delta_ms as int,
        ) <= i64::MAX,
        i64::MIN <= old(translation).y + spec_scale_by_millis(
            velocity.0.y as int,
            delta_ms as int,
        ) <= i64::MAX,
        i64::MIN <= old(translation).z + spec_scale_by_millis(
            velocity.0.z as int,
            delta_ms as int,
        ) <= i64::MAX,
    ensures
        final(translation).x == old(translation).x + spec_scale_by_millis(
            velocity.0.x as int,
            delta_ms as int,
        ),
        final(translation).y == old(translation).y + spec_scale_by_millis(
            velocity.0.y as int,
            delta_ms as int,
        ),
        final(translation).z == old(translation).z + spec_scale_by_millis(
            velocity.0.z as int,
            delta_ms as int,
        ),
{
    translation.x = translation.x + scale_by_millis(velocity.0.x, delta_ms);
    translation.y = translation.y + scale_by_millis(velocity.0.y, delta_ms);
    translation.z = translation.z + scale_by_millis(velocity.0.z, delta_ms);
}

/// `r` is the integer square root of `x`.
pub open spec fn is_isqrt(x: int, r: int) -> bool {
    &&& r >= 0
    &&& r * r <= x
    &&& x < (r + 1) * (r + 1)
}

/// The integer square root, as the unique `r` with `r * r <= x < (r+1)^2`.
pub open spec fn spec_isqrt(x: int) -> int {
    choose|r: int| is_isqrt(x, r)
}

/// The integer square root is unique.
pub proof fn lemma_isqrt_unique(x: int, r1: int, r2: int)
    requires
        is_isqrt(x, r1),
        is_isqrt(x, r2),
    ensures
        r1 == r2,
{
    assert(r1 == r2) by (nonlinear_arith)
        requires
            is_isqrt(x, r1),
            is_isqrt(x, r2);
}

proof fn lemma_square_below_bound(m: int)
    requires
        0 <= m < 2147483648,
    ensures
        m * m < 4611686018427387904,
{
    assert(m * m < 4611686018427387904) by (nonlinear_arith)
        requires
            0 <= m < 2147483648;
}

/// Integer square root by bisection.
pub fn isqrt(x: u64) -> (r: u64)
    requires
        x < 0x4000_0000_0000_0000u64,
    ensures
        is_isqrt(x as int, r as int),
        r == spec_isqrt(x as int),
{
    let mut lo: u64 = 0;
    let mut hi: u64 = 0x8000_0000u64;
    proof {
        assert(2147483648int * 2147483648int == 4611686018427387904int);
    }
    while hi - lo > 1
        invariant
            lo < hi <= 0x8000_0000u64,
            lo as int * lo as int <= x as int,
            x < hi as int * hi as int,
        decreases hi - lo,
    {
        let mid = lo + (hi - lo) / 2;
        proof {
            lemma_square_below_bound(mid as int);
        }
        if mid * mid <= x {
            lo = mid;
        } else {
            hi = mid;
        }
    }
    proof {
        assert(hi == lo + 1);
        assert(is_isqrt(x as int, lo as int));
        lemma_isqrt_unique(x as int, lo as int, spec_isqrt(x as int));
    }
    lo
}

/// Every coordinate within the world bound.
pub open spec fn in_bounds(v: Vec3Milli) -> bool {
    &&& -COORD_LIMIT_MILLI <= v.x <= COORD_LIMIT_MILLI
    &&& -COORD_LIMIT_MILLI <= v.y <= COORD_LIMIT_MILLI
    &&& -COORD_LIMIT_MILLI <= v.z <= COORD_LIMIT_MILLI
}

/// Squared distance between two points, in milli-units squared.
pub open spec fn spec_dist_sq(a: Vec3Milli, b: Vec3Milli) -> int {
    (a.x - b.x) * (a.x - b.x) + (a.y - b.y) * (a.y - b.y) + (a.z - b.z) * (a.z - b.z)
}

/// Squared distance between two points whose coordinates are bounded.
pub fn dist_sq(a: &Vec3Milli, b: &Vec3Milli) -> (r: u64)
    requires
        -COORD_LIMIT_MILLI <= a.x <= COORD_LIMIT_MILLI,
        -COORD_LIMIT_MILLI <= a.y <= COORD_LIMIT_MILLI,
        -COORD_LIMIT_MILLI <= a.z <= COORD_LIMIT_MILLI,
        -COORD_LIMIT_MILLI <= b.x <= COORD_LIMIT_MILLI,
        -COORD_LIMIT_MILLI <= b.y <= COORD_LIMIT_MILLI,
        -COORD_LIMIT_MILLI <= b.z <= COORD_LIMIT_MILLI,
    ensures
        r == spec_dist_sq(*a, *b),
        r < 0x4000_0000_0000_0000u64,
{
    let dx = abs_diff_milli(a.x, b.x);
    let dy = abs_diff_milli(a.y, b.y);
    let dz = abs_diff_milli(a.z, b.z);
    proof {
        assert(dx as int * dx as int == (a.x - b.x) * (a.x - b.x)) by (nonlinear_arith)
            requires
                dx == if a.x >= b.x { a.x - b.x } else { b.x - a.x };
        assert(dy as int * dy as int == (a.y - b.y) * (a.y - b.y)) by (nonlinear_arith)
            requires
                dy == if a.y >= b.y { a.y - b.y } else { b.y - a.y };
        assert(dz as int * dz as int == (a.z - b.z) * (a.z - b.z)) by (nonlinear_arith)
            requires
                dz == if a.z >= b.z { a.z - b.z } else { b.z - a.z };
        assert(dx as int * dx as int <= 200_000_000 * 200_000_000int) by (nonlinear_arith)
            requires
                0 <= dx <= 200_000_000;
        assert(dy as int * dy as int <= 200_000_000 * 200_000_000int) by (nonlinear_arith)
            requires
                0 <= dy <= 200_000_000;
        assert(dz as int * dz as int <= 200_000_000 * 200_000_000int) by (nonlinear_arith)
            requires
                0 <= dz <= 200_000_000;
    }
    dx * dx + dy * dy + dz * dz
}

/// `|a - b|` for bounded coordinates.
fn abs_diff_milli(a: i64, b: i64) -> (r: u64)
    requires
        -COORD_LIMIT_MILLI <= a <= COORD_LIMIT_MILLI,
        -COORD_LIMIT_MILLI <= b <= COORD_LIMIT_MILLI,
    ensures
        r == if a >= b { a - b } else { b - a },
        r <= 200_000_000,
{
    if a >= b {
        (a - b) as u64
    } else {
        (b - a) as u64
    }
}

} // verus!
