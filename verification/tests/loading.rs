use horde_survivors::loader::{
    load_meshes, update_loading_progress, CharacterHandles, LoadingAssets, LoadingTimer,
    ManifestHandles,
};
use horde_survivors::registry::MeshAssets;
use horde_survivors::state::GameState;
use horde_survivors::types::{LoadState, LoadingUpdate};
use horde_survivors::ui::loading_bar_percent;

fn sample_handles() -> ManifestHandles {
    ManifestHandles {
        player: CharacterHandles { mesh: 1, idle: 2, walk: 3, run: 4, take_hit: 5, die: 6 },
        enemy: CharacterHandles { mesh: 7, idle: 8, walk: 9, run: 10, take_hit: 11, die: 12 },
        projectile_mesh: 13,
        destructible_mesh: 14,
    }
}

#[test]
fn load_meshes_registers_four_keys_and_tracks_fourteen_handles() {
    let mut assets = MeshAssets::new();
    let mut loading = LoadingAssets::new();
    let handles = sample_handles();
    load_meshes(&mut assets, &mut loading, &handles);

    let player = assets.get(&"player".to_owned()).expect("player registered");
    assert_eq!(player.mesh, 1);
    let anims = player.animations.expect("player is animated");
    assert_eq!(anims.idle, Some(2));
    assert_eq!(anims.die, Some(6));

    let projectile = assets.get(&"projectile".to_owned()).expect("projectile registered");
    assert_eq!(projectile.mesh, 13);
    assert!(projectile.animations.is_none());

    assert!(assets.get(&"ghost".to_owned()).is_none());

    assert_eq!(loading.entries.len(), 14);
    assert!(loading.entries.iter().all(|(_, st)| *st == LoadState::NotLoaded));
    assert_eq!(loading.num_loaded(), 0);
    assert_eq!(loading.num_failed(), 0);
}

#[test]
fn readiness_never_moves_backward() {
    let mut loading = LoadingAssets::new();
    loading.track(1);
    loading.track(2);
    loading.track(3);

    // First tick: 1 loads, 2 fails, 3 still pending.
    loading.apply_load_observations(&vec![
        Some(LoadState::Loaded),
        Some(LoadState::Failed),
        None,
    ]);
    assert_eq!(loading.entries[0].1, LoadState::Loaded);
    assert_eq!(loading.entries[1].1, LoadState::Failed);
    assert_eq!(loading.entries[2].1, LoadState::NotLoaded);

    // Second tick: contradictory observations must not move anything back.
    loading.apply_load_observations(&vec![
        Some(LoadState::NotLoaded),
        Some(LoadState::Loaded),
        Some(LoadState::NotLoaded),
    ]);
    assert_eq!(loading.entries[0].1, LoadState::Loaded);
    assert_eq!(loading.entries[1].1, LoadState::Failed);
    assert_eq!(loading.entries[2].1, LoadState::NotLoaded);

    assert_eq!(loading.num_loaded(), 1);
    assert_eq!(loading.num_failed(), 1);
}

#[test]
fn progress_event_is_edge_triggered() {
    let mut loading = LoadingAssets::new();
    loading.track(1);
    loading.track(2);
    let mut timer = LoadingTimer::new();
    let mut curr_loaded = 0usize;

    // One asset loads: a progress event fires.
    let (event, next) = update_loading_progress(
        &mut loading,
        &mut timer,
        &mut curr_loaded,
        &vec![Some(LoadState::Loaded), None],
        100,
    );
    assert_eq!(event, Some(LoadingUpdate(1, 2)));
    assert_eq!(next, None);

    // Nothing changes: the loaded count is the same, so no event.
    let (event, next) = update_loading_progress(
        &mut loading,
        &mut timer,
        &mut curr_loaded,
        &vec![None, None],
        100,
    );
    assert_eq!(event, None);
    assert_eq!(next, None);
}

#[test]
fn seven_asset_manifest_transitions_exactly_once_when_complete() {
    let mut loading = LoadingAssets::new();
    for id in 1..=7u64 {
        loading.track(id);
    }
    let mut timer = LoadingTimer::new();
    let mut curr_loaded = 0usize;
    let mut state = GameState::Loading;
    let mut transitions = 0usize;
    let mut last_update = None;

    // Tick 1: five of seven loaded, debounce not yet elapsed.
    let obs: Vec<Option<LoadState>> = (0..7)
        .map(|i| if i < 5 { Some(LoadState::Loaded) } else { None })
        .collect();
    let (event, next) =
        update_loading_progress(&mut loading, &mut timer, &mut curr_loaded, &obs, 300);
    assert_eq!(event, Some(LoadingUpdate(5, 7)));
    assert_eq!(next, None);
    assert_eq!(state, GameState::Loading);

    // Tick 2: still five loaded, debounce elapses; incomplete, no transition.
    let (event, next) = update_loading_progress(
        &mut loading,
        &mut timer,
        &mut curr_loaded,
        &vec![None; 7],
        300,
    );
    assert_eq!(event, None);
    assert_eq!(next, None);

    // Tick 3: the remaining two load; the transition fires, exactly once,
    // and the loaded count 7 was reported in the same tick's update.
    for _ in 0..3 {
        if state != GameState::Loading {
            break; // the loading system no longer runs outside Loading
        }
        let obs: Vec<Option<LoadState>> = vec![Some(LoadState::Loaded); 7];
        let (event, next) =
            update_loading_progress(&mut loading, &mut timer, &mut curr_loaded, &obs, 100);
        if let Some(update) = event {
            last_update = Some(update);
        }
        if let Some(s) = next {
            state = s;
            transitions += 1;
        }
    }
    assert_eq!(state, GameState::Initialize);
    assert_eq!(transitions, 1);
    assert_eq!(last_update, Some(LoadingUpdate(7, 7)));
}

#[test]
fn failed_asset_stalls_the_transition_but_not_the_tick() {
    let mut loading = LoadingAssets::new();
    loading.track(1);
    loading.track(2);
    let mut timer = LoadingTimer::new();
    let mut curr_loaded = 0usize;

    let (event, next) = update_loading_progress(
        &mut loading,
        &mut timer,
        &mut curr_loaded,
        &vec![Some(LoadState::Loaded), Some(LoadState::Failed)],
        1000,
    );
    assert_eq!(event, Some(LoadingUpdate(1, 2)));
    // The debounce elapsed but one asset failed: the loaded count stays
    // short of the total and the transition never comes.
    assert_eq!(next, None);
    let (event, next) = update_loading_progress(
        &mut loading,
        &mut timer,
        &mut curr_loaded,
        &vec![None, None],
        1000,
    );
    assert_eq!(event, None);
    assert_eq!(next, None);
}

#[test]
fn loading_bar_percent_matches_loaded_share() {
    assert_eq!(loading_bar_percent(0, 7), 0);
    assert_eq!(loading_bar_percent(5, 7), 71);
    assert_eq!(loading_bar_percent(7, 7), 100);
    assert_eq!(loading_bar_percent(1, 3), 33);
}
