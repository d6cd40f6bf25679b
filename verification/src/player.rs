//! Player input handling: directional intent read once per tick becomes a
//! velocity and an animation trigger, in fixed-point milli-units.

use vstd::prelude::*;

use crate::movement::Velocity;
use crate::types::{AnimationType, TriggerAnimation, Vec3Milli};

verus! {

/// Modifiers are bounded (one hundred world units per second, a factor of
/// one hundred), keeping the velocity arithmetic far from overflow.
pub const SPEED_LIMIT_MILLI: u64 = 100_000;

/// Below this squared speed (in milli-units squared) the player is
/// considered standing still and triggers the idle animation.
pub const IDLE_SPEED_SQ_MILLI: u64 = 50_000;

/// The numerator of one over the square root of two, in milli-units: the
/// per-axis magnitude of a normalized diagonal direction.
pub const DIAGONAL_UNIT_MILLI: u64 = 707;

/// The player's movement tuning: base speed times a multiplier, both in
/// milli-units.
#[derive(Debug, Clone, Copy, PartialEq, Eq, Structural)]
pub struct PlayerModifiers {
    pub move_speed_milli: u64,
    pub move_speed_mod_milli: u64,
}

impl Default for PlayerModifiers {
    /// Five world units per second, unmodified.
    fn default() -> (r: Self)
        ensures
            r.move_speed_milli == 5000,
            r.move_speed_mod_milli == 1000,
    {
        PlayerModifiers { move_speed_milli: 5000, move_speed_mod_milli: 1000 }
    }
}

/// Pressed state of the four movement keys, polled once per tick.
#[derive(Debug, Clone, Copy, PartialEq, Eq, Structural)]
pub struct MoveInput {
    pub left: bool,
    pub right: bool,
    pub up: bool,
    pub down: bool,
}

/// One axis of directional intent: +1, -1, or 0 when neither or both keys
/// are held.
pub open spec fn spec_axis(negative: bool, positive: bool) -> int {
    (if positive {
        1int
    } else {
        0int
    }) - (if negative {
        1int
    } else {
        0int
    })
}

/// Per-axis magnitude of the normalized direction, in milli-units:
/// a diagonal is scaled by one over the square root of two.
pub open spec fn spec_unit_mag(dx: int, dy: int) -> int {
    if dx != 0 && dy != 0 {
        DIAGONAL_UNIT_MILLI as int
    } else {
        1000
    }
}

/// Base speed times its multiplier, in milli-units per second.
pub open spec fn spec_effective_speed(m: PlayerModifiers) -> int {
    (m.move_speed_milli * m.move_speed_mod_milli) / 1000
}

proof fn lemma_mul_le(a: int, b: int, bound_a: int, bound_b: int)
    requires
        0 <= a <= bound_a,
        0 <= b <= bound_b,
    ensures
        a * b <= bound_a * bound_b,
{
    assert(a * b <= bound_a * bound_b) by (nonlinear_arith)
        requires
            0 <= a <= bound_a,
            0 <= b <= bound_b;
}

proof fn lemma_sign_mul(s: int, m: int)
    requires
        s == -1 || s == 0 || s == 1,
    ensures
        s * m == (if s == 1 {
            m
        } else if s == -1 {
            -m
        } else {
            0int
        }),
        (s * m) * (s * m) == (if s == 0 {
            0int
        } else {
            m * m
        }),
{
    assert(s * m == (if s == 1 {
        m
    } else if s == -1 {
        -m
    } else {
        0int
    })) by (nonlinear_arith)
        requires
            s == -1 || s == 0 || s == 1;
    assert((s * m) * (s * m) == (if s == 0 {
        0int
    } else {
        m * m
    })) by (nonlinear_arith)
        requires
            s == -1 || s == 0 || s == 1;
}

/// Read the directional intent, set the player's velocity accordingly,
/// and trigger the matching animation: idle when the resulting speed is
/// negligible, running otherwise. Triggers fire every tick; re-triggering
/// the current animation is tolerated by the dispatcher.
pub fn handle_move_ctl(
    input: &MoveInput,
    modifiers: &PlayerModifiers,
    player_entity: u64,
) -> (r: (Velocity, TriggerAnimation))
    requires
        modifiers.move_speed_milli <= SPEED_LIMIT_MILLI,
        modifiers.move_speed_mod_milli <= SPEED_LIMIT_MILLI,
    ensures
        ({
            let dx = spec_axis(input.left, input.right);
            let dy = spec_axis(input.down, input.up);
            let mag = (spec_unit_mag(dx, dy) * spec_effective_speed(*modifiers)) / 1000;
            let vx = dx * mag;
            let vy = dy * mag;
            &&& r.0.0.x == vx
            &&& r.0.0.y == vy
            &&& r.0.0.z == 0
            &&& r.1 == TriggerAnimation(
                player_entity,
                if vx * vx + vy * vy < IDLE_SPEED_SQ_MILLI {
                    AnimationType::Idle
                } else {
                    AnimationType::Run
                },
            )
        }),
{
    let dx: i64 = (if input.right {
        1i64
    } else {
        0i64
    }) - (if input.left {
        1i64
    } else {
        0i64
    });
    let dy: i64 = (if input.up {
        1i64
    } else {
        0i64
    }) - (if input.down {
        1i64
    } else {
        0i64
    });

    proof {
        lemma_mul_le(
            modifiers.move_speed_milli as int,
            modifiers.move_speed_mod_milli as int,
            SPEED_LIMIT_MILLI as int,
            SPEED_LIMIT_MILLI as int,
        );
    }
    let eff: u64 = modifiers.move_speed_milli * modifiers.move_speed_mod_milli / 1000;
    let unit: u64 = if dx != 0 && dy != 0 {
        DIAGONAL_UNIT_MILLI
    } else {
        1000
    };
    proof {
        lemma_mul_le(unit as int, eff as int, 1000, 10_000_000);
    }
    let mag: u64 = unit * eff / 1000;

    let vx: i64 = if dx > 0 {
        mag as i64
    } else if dx < 0 {
        -(mag as i64)
    } else {
        0i64
    };
    let vy: i64 = if dy > 0 {
        mag as i64
    } else if dy < 0 {
        -(mag as i64)
    } else {
        0i64
    };

    proof {
        lemma_mul_le(mag as int, mag as int, 10_000_000, 10_000_000);
        lemma_sign_mul(dx as int, mag as int);
        lemma_sign_mul(dy as int, mag as int);
    }
    let mag_sq: u64 = mag * mag;
    let len_sq: u64 = (if dx != 0 {
        mag_sq
    } else {
        0u64
    }) + (if dy != 0 {
        mag_sq
    } else {
        0u64
    });

    let velocity = Velocity(Vec3Milli { x: vx, y: vy, z: 0 });
    let animation = if len_sq < IDLE_SPEED_SQ_MILLI {
        AnimationType::Idle
    } else {
        AnimationType::Run
    };
    (velocity, TriggerAnimation(player_entity, animation))
}

} // verus!
