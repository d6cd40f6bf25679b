//! Enemy wave spawning and steering. A repeating timer seeds spawn
//! requests in a radial pattern around the player; each tick, every enemy
//! steers toward the player's current position and re-triggers its walk or
//! idle animation.

use vstd::prelude::*;

use crate::movement::{
    dist_sq, in_bounds, is_isqrt, isqrt, spec_dist_sq, spec_isqrt, Velocity,
};
use crate::timer::{Timer, TimerMode};
use crate::types::{AnimationType, AssetKey, Vec3Milli};

verus! {

/// Seconds between enemy waves, in milliseconds.
pub const WAVE_TIME_MS: u64 = 5000;

/// Spawn requests per wave.
pub const WAVE_SPAWNS_PER: usize = 8;

/// Radius of the spawn circle around the player, in milli-units.
pub const ENEMY_SPAWN_DIST_MILLI: u64 = 15_000;

/// Enemy movement speed toward the player, in milli-units per second.
pub const ENEMY_MOVE_SPEED_MILLI: u64 = 2_250;

/// Squared distance (milli-units squared) below which an enemy stands
/// still and idles instead of walking.
pub const ENEMY_IDLE_DIST_SQ: u64 = 250_000;

/// A full turn, in milli-degrees.
pub const FULL_CIRCLE_MILLIDEG: u64 = 360_000;

/// The repeating timer that fires one enemy wave per period.
#[derive(Debug, Clone, Copy)]
pub struct WaveTimer(pub Timer);

impl WaveTimer {
    pub fn new() -> (r: WaveTimer)
        ensures
            r.0.wf(),
            r.0.mode is Repeating,
            r.0.duration_ms == WAVE_TIME_MS,
            r.0.elapsed_ms == 0,
            !r.0.just_finished,
    {
        WaveTimer(Timer::new(WAVE_TIME_MS, TimerMode::Repeating))
    }
}

/// One requested enemy spawn: a point on a circle around the player,
/// given in polar form, tagged with the enemy asset key. The host places
/// the new root entity at this point and emits the mesh spawn request.
#[derive(Debug, Clone)]
pub struct EnemySpawn {
    pub center: Vec3Milli,
    pub radius_milli: u64,
    pub angle_millideg: u64,
    pub key: AssetKey,
}

/// When the wave timer has just fired and the player exists, request one
/// wave of spawns: equal angular offsets around the player at the fixed
/// spawn radius, all tagged "enemy". Otherwise request nothing.
pub fn spawn_enemy_wave(wave_timer: &WaveTimer, player: Option<Vec3Milli>) -> (r: Vec<
    EnemySpawn,
>)
    ensures
        !(wave_timer.0.spec_finished() && player is Some) ==> r@.len() == 0,
        wave_timer.0.spec_finished() && player is Some ==> {
            &&& r@.len() == WAVE_SPAWNS_PER
            &&& forall|i: int|
                0 <= i < r@.len() ==> {
                    &&& (#[trigger] r@[i]).center == player.unwrap()
                    &&& r@[i].radius_milli == ENEMY_SPAWN_DIST_MILLI
                    &&& r@[i].angle_millideg == i * ((FULL_CIRCLE_MILLIDEG as int) / (
                    WAVE_SPAWNS_PER as int))
                    &&& r@[i].key@ == "enemy"@
                }
        },
{
    let mut wave: Vec<EnemySpawn> = Vec::new();
    if !wave_timer.0.finished() {
        return wave;
    }
    let center = match player {
        Some(c) => c,
        None => {
            return wave;
        },
    };
    let angle_step: u64 = FULL_CIRCLE_MILLIDEG / (WAVE_SPAWNS_PER as u64);
    let mut n: usize = 0;
    while n < WAVE_SPAWNS_PER
        invariant
            0 <= n <= WAVE_SPAWNS_PER,
            angle_step == (FULL_CIRCLE_MILLIDEG as int) / (WAVE_SPAWNS_PER as int),
            wave@.len() == n,
            forall|i: int|
                0 <= i < n ==> {
                    &&& (#[trigger] wave@[i]).center == center
                    &&& wave@[i].radius_milli == ENEMY_SPAWN_DIST_MILLI
                    &&& wave@[i].angle_millideg == i * (angle_step as int)
                    &&& wave@[i].key@ == "enemy"@
                },
        decreases WAVE_SPAWNS_PER - n,
    {
        proof {
            assert(angle_step == 45000);
        }
        let spawn = EnemySpawn {
            center,
            radius_milli: ENEMY_SPAWN_DIST_MILLI,
            angle_millideg: (n as u64) * angle_step,
            key: AssetKey("enemy".to_owned()),
        };
        wave.push(spawn);
        n = n + 1;
    }
    wave
}

/// The per-axis steering velocity: the axis share of the distance, scaled
/// to the fixed enemy speed, truncated toward zero.
pub open spec fn spec_steer_component(delta: int, dist: int) -> int {
    if delta >= 0 {
        (delta * ENEMY_MOVE_SPEED_MILLI) / dist
    } else {
        -(((-delta) * ENEMY_MOVE_SPEED_MILLI) / dist)
    }
}

/// The steering decision for one enemy: walk toward the player at fixed
/// speed while beyond the idle threshold, else stand still and idle.
pub open spec fn steer_matches(
    player: Vec3Milli,
    enemy: Vec3Milli,
    velocity: Vec3Milli,
    animation: AnimationType,
) -> bool {
    let d2 = spec_dist_sq(player, enemy);
    &&& animation == (if d2 > ENEMY_IDLE_DIST_SQ {
        AnimationType::Walk
    } else {
        AnimationType::Idle
    })
    &&& if d2 > ENEMY_IDLE_DIST_SQ {
        let dist = spec_isqrt(d2);
        &&& velocity.x == spec_steer_component(player.x - enemy.x, dist)
        &&& velocity.y == spec_steer_component(player.y - enemy.y, dist)
        &&& velocity.z == spec_steer_component(player.z - enemy.z, dist)
    } else {
        velocity == Vec3Milli::spec_zero()
    }
}

/// Beyond the idle threshold, the walk's distance is at least half a unit.
proof fn lemma_dist_lower_bound(d2: int, dist: int)
    requires
        is_isqrt(d2, dist),
        d2 > ENEMY_IDLE_DIST_SQ,
    ensures
        dist >= 500,
{
    assert(dist >= 500) by (nonlinear_arith)
        requires
            dist >= 0,
            d2 < (dist + 1) * (dist + 1),
            d2 > 250_000;
}

proof fn lemma_steer_numerator_bound(delta: int)
    requires
        0 <= delta <= 200_000_000,
    ensures
        delta * ENEMY_MOVE_SPEED_MILLI <= 450_000_000_000,
{
    assert(delta * 2250 <= 450_000_000_000int) by (nonlinear_arith)
        requires
            0 <= delta <= 200_000_000;
}

/// One axis of the steering velocity.
fn steer_component(delta: i64, dist: u64) -> (r: i64)
    requires
        -200_000_000 <= delta <= 200_000_000,
        dist >= 1,
    ensures
        r == spec_steer_component(delta as int, dist as int),
{
    if delta >= 0 {
        proof {
            lemma_steer_numerator_bound(delta as int);
        }
        let scaled = (delta as u64) * ENEMY_MOVE_SPEED_MILLI / dist;
        scaled as i64
    } else {
        proof {
            lemma_steer_numerator_bound((-delta) as int);
        }
        let scaled = ((-delta) as u64) * ENEMY_MOVE_SPEED_MILLI / dist;
        -(scaled as i64)
    }
}

/// The steering decision for one enemy position.
fn steer_one(player: &Vec3Milli, enemy: &Vec3Milli) -> (r: (Velocity, AnimationType))
    requires
        in_bounds(*player),
        in_bounds(*enemy),
    ensures
        steer_matches(*player, *enemy, r.0.0, r.1),
{
    let d2 = dist_sq(player, enemy);
    if d2 > ENEMY_IDLE_DIST_SQ {
        let dist = isqrt(d2);
        proof {
            lemma_dist_lower_bound(d2 as int, dist as int);
        }
        let vx = steer_component(player.x - enemy.x, dist);
        let vy = steer_component(player.y - enemy.y, dist);
        let vz = steer_component(player.z - enemy.z, dist);
        (Velocity(Vec3Milli { x: vx, y: vy, z: vz }), AnimationType::Walk)
    } else {
        (Velocity(Vec3Milli::zero()), AnimationType::Idle)
    }
}

/// The per-tick steering update for one enemy entity.
#[derive(Debug, Clone, Copy, PartialEq, Eq, Structural)]
pub struct SteeringUpdate {
    pub entity: u64,
    pub velocity: Velocity,
    pub animation: AnimationType,
}

/// Steer every enemy toward the player's current position: set its
/// velocity and re-trigger its walk or idle animation, every tick,
/// whether or not anything changed. With no player alive, no updates.
pub fn follow_player(
    player: Option<Vec3Milli>,
    enemies: &Vec<(u64, Vec3Milli)>,
) -> (r: Vec<SteeringUpdate>)
    requires
        player matches Some(p) ==> in_bounds(p),
        forall|i: int| 0 <= i < enemies@.len() ==> in_bounds((#[trigger] enemies@[i]).1),
    ensures
        player is None ==> r@.len() == 0,
        player matches Some(p) ==> {
            &&& r@.len() == enemies@.len()
            &&& forall|i: int|
                0 <= i < enemies@.len() ==> {
                    &&& (#[trigger] r@[i]).entity == enemies@[i].0
                    &&& steer_matches(p, enemies@[i].1, r@[i].velocity.0, r@[i].animation)
                }
        },
{
    let mut updates: Vec<SteeringUpdate> = Vec::new();
    let center = match player {
        Some(c) => c,
        None => {
            return updates;
        },
    };
    let n = enemies.len();
    let mut i: usize = 0;
    while i < n
        invariant
            0 <= i <= n,
            n == enemies@.len(),
            in_bounds(center),
            forall|j: int| 0 <= j < n ==> in_bounds((#[trigger] enemies@[j]).1),
            updates@.len() == i,
            forall|j: int|
                0 <= j < i ==> {
                    &&& (#[trigger] updates@[j]).entity == enemies@[j].0
                    &&& steer_matches(
                        center,
                        enemies@[j].1,
                        updates@[j].velocity.0,
                        updates@[j].animation,
                    )
                },
        decreases n - i,
    {
        let entity = enemies[i].0;
        let pos = enemies[i].1;
        let (velocity, animation) = steer_one(&center, &pos);
        updates.push(SteeringUpdate { entity, velocity, animation });
        i = i + 1;
    }
    updates
}

} // verus!
