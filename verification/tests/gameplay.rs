use horde_survivors::movement::{
    dist_sq, isqrt, scale_by_millis, update_position, update_velocity, Acceleration, Velocity,
};
use horde_survivors::player::{handle_move_ctl, MoveInput, PlayerModifiers};
use horde_survivors::schedule::GameLoopSchedules;
use horde_survivors::state::{advance_initialization, process_pause_events, GameState, NextState};
use horde_survivors::timer::{Timer, TimerMode};
use horde_survivors::types::{AnimationType, TriggerAnimation, Vec3Milli};

fn no_keys() -> MoveInput {
    MoveInput { left: false, right: false, up: false, down: false }
}

#[test]
fn idle_trigger_when_no_key_is_held() {
    let modifiers = PlayerModifiers::default();
    let (velocity, trigger) = handle_move_ctl(&no_keys(), &modifiers, 5);
    assert_eq!(velocity.0, Vec3Milli { x: 0, y: 0, z: 0 });
    assert_eq!(trigger, TriggerAnimation(5, AnimationType::Idle));
}

#[test]
fn single_key_runs_at_full_speed() {
    let modifiers = PlayerModifiers::default();
    let input = MoveInput { up: true, ..no_keys() };
    let (velocity, trigger) = handle_move_ctl(&input, &modifiers, 5);
    assert_eq!(velocity.0, Vec3Milli { x: 0, y: 5000, z: 0 });
    assert_eq!(trigger, TriggerAnimation(5, AnimationType::Run));
}

#[test]
fn diagonal_movement_is_normalized() {
    let modifiers = PlayerModifiers::default();
    let input = MoveInput { up: true, right: true, ..no_keys() };
    let (velocity, trigger) = handle_move_ctl(&input, &modifiers, 5);
    // 5000 scaled by 707/1000 per axis.
    assert_eq!(velocity.0, Vec3Milli { x: 3535, y: 3535, z: 0 });
    assert_eq!(trigger.1, AnimationType::Run);
}

#[test]
fn opposite_keys_cancel_and_idle() {
    let modifiers = PlayerModifiers::default();
    let input = MoveInput { left: true, right: true, up: true, down: true };
    let (velocity, trigger) = handle_move_ctl(&input, &modifiers, 5);
    assert_eq!(velocity.0, Vec3Milli { x: 0, y: 0, z: 0 });
    assert_eq!(trigger.1, AnimationType::Idle);
}

#[test]
fn movement_integrates_velocity_and_acceleration() {
    let mut velocity = Velocity(Vec3Milli { x: 0, y: 1000, z: 0 });
    let acceleration = Acceleration(Vec3Milli { x: 500, y: -2000, z: 0 });
    update_velocity(&mut velocity, &acceleration, 500);
    assert_eq!(velocity.0, Vec3Milli { x: 250, y: 0, z: 0 });

    let mut translation = Vec3Milli { x: 100, y: 0, z: -50 };
    update_position(&mut translation, &Velocity(Vec3Milli { x: 1000, y: -3000, z: 100 }), 250);
    assert_eq!(translation, Vec3Milli { x: 350, y: -750, z: -25 });
}

#[test]
fn scaling_truncates_toward_zero_for_both_signs() {
    assert_eq!(scale_by_millis(1001, 500), 500);
    assert_eq!(scale_by_millis(-1001, 500), -500);
    assert_eq!(scale_by_millis(0, 999), 0);
}

#[test]
fn integer_square_root_brackets_its_input() {
    assert_eq!(isqrt(0), 0);
    assert_eq!(isqrt(1), 1);
    assert_eq!(isqrt(3), 1);
    assert_eq!(isqrt(4), 2);
    assert_eq!(isqrt(249_999), 499);
    assert_eq!(isqrt(250_000), 500);
    assert_eq!(isqrt(1_000_000_000_000), 1_000_000);
}

#[test]
fn squared_distance_is_exact() {
    let a = Vec3Milli { x: 3000, y: 4000, z: 0 };
    let b = Vec3Milli { x: 0, y: 0, z: 0 };
    assert_eq!(dist_sq(&a, &b), 25_000_000);
    assert_eq!(dist_sq(&a, &a), 0);
}

#[test]
fn once_timer_debounces_and_stays_finished() {
    let mut timer = Timer::new(500, TimerMode::Once);
    timer.tick(499);
    assert!(!timer.finished());
    timer.tick(1);
    assert!(timer.finished());
    assert!(timer.just_finished);
    timer.tick(100);
    assert!(timer.finished());
    assert!(!timer.just_finished);
}

#[test]
fn repeating_timer_wraps_and_reports_each_crossing() {
    let mut timer = Timer::new(5000, TimerMode::Repeating);
    timer.tick(4999);
    assert!(!timer.finished());
    timer.tick(1);
    assert!(timer.finished());
    assert_eq!(timer.elapsed_ms, 0);
    timer.tick(2500);
    assert!(!timer.finished());
    timer.tick(7500);
    assert!(timer.finished());
    assert_eq!(timer.elapsed_ms, 0);
}

#[test]
fn escape_toggles_between_playing_and_pause() {
    assert_eq!(
        process_pause_events(&GameState::Playing, true),
        Some(GameState::PauseMenu)
    );
    assert_eq!(
        process_pause_events(&GameState::PauseMenu, true),
        Some(GameState::Playing)
    );
    assert_eq!(process_pause_events(&GameState::Playing, false), None);
    assert_eq!(process_pause_events(&GameState::Loading, true), None);
    assert_eq!(advance_initialization(), GameState::Playing);
}

#[test]
fn next_state_slot_applies_once_and_clears() {
    let mut slot = NextState::none();
    let mut state = GameState::default();
    assert_eq!(state, GameState::Loading);
    assert_eq!(slot.apply(&mut state), None);

    slot.set(GameState::Initialize);
    slot.set(GameState::Playing); // a later request overwrites
    assert_eq!(slot.apply(&mut state), Some(GameState::Playing));
    assert_eq!(state, GameState::Playing);
    assert_eq!(slot.apply(&mut state), None);
    assert_eq!(state, GameState::Playing);
}

#[test]
fn frame_phases_run_in_their_fixed_order_with_one_flush() {
    let phases = [
        GameLoopSchedules::ProcessInput,
        GameLoopSchedules::Spawn,
        GameLoopSchedules::PostSpawn,
        GameLoopSchedules::EntityUpdates,
        GameLoopSchedules::CollisionDetection,
        GameLoopSchedules::Despawn,
    ];
    for pair in phases.windows(2) {
        assert!(pair[0].phase_index() < pair[1].phase_index());
    }
    for phase in phases {
        assert_eq!(phase.flush_after(), phase == GameLoopSchedules::Spawn);
    }
}
