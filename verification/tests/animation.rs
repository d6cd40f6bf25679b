use horde_survivors::animator::{
    associate_animation_players_to_root_entities, final_command_for, get_root,
    purge_despawned_entity, start_idle_animation, trigger_animation, AnimationPlayerMapping,
    AnimationPlayerReverseMapping, IdleStartOutcome, ParentGraph, TriggerOutcome,
    CROSS_FADE_MS,
};
use horde_survivors::loader::{load_meshes, CharacterHandles, LoadingAssets, ManifestHandles};
use horde_survivors::mesh_spawner::{spawn_mesh, EntityAssetMapping};
use horde_survivors::registry::{Animations, CharacterAssets, MeshAssets};
use horde_survivors::types::{AnimationType, AssetKey, SpawnMesh, TriggerAnimation, Vec3Milli};

fn registry() -> MeshAssets {
    let mut assets = MeshAssets::new();
    let mut loading = LoadingAssets::new();
    let handles = ManifestHandles {
        player: CharacterHandles { mesh: 1, idle: 2, walk: 3, run: 4, take_hit: 5, die: 6 },
        enemy: CharacterHandles { mesh: 7, idle: 8, walk: 9, run: 10, take_hit: 11, die: 12 },
        projectile_mesh: 13,
        destructible_mesh: 14,
    };
    load_meshes(&mut assets, &mut loading, &handles);
    assets
}

/// Root 10 carries the "player" asset key; its animation player is 99,
/// nested 10 -> 55 -> 77 -> 99.
fn discovered_world() -> (MeshAssets, EntityAssetMapping, AnimationPlayerMapping, AnimationPlayerReverseMapping)
{
    let assets = registry();
    let mut asset_map = EntityAssetMapping::new();
    let outcomes = spawn_mesh(
        &assets,
        &mut asset_map,
        vec![SpawnMesh(10, AssetKey("player".to_owned()), Vec3Milli { x: 0, y: 0, z: 0 })],
    );
    assert_eq!(outcomes.len(), 1);

    let mut parents = ParentGraph::new();
    parents.0.insert(99, 77);
    parents.0.insert(77, 55);
    parents.0.insert(55, 10);
    let mut mapping = AnimationPlayerMapping::new();
    let mut rev = AnimationPlayerReverseMapping::new();
    associate_animation_players_to_root_entities(&mut mapping, &mut rev, &vec![99], &parents, 64);
    (assets, asset_map, mapping, rev)
}

#[test]
fn get_root_resolves_a_deep_chain_to_its_terminal_ancestor() {
    let mut parents = ParentGraph::new();
    parents.0.insert(4, 3);
    parents.0.insert(3, 2);
    parents.0.insert(2, 1);
    assert_eq!(get_root(4, &parents, 64), Some(1));
    assert_eq!(get_root(2, &parents, 64), Some(1));
    assert_eq!(get_root(1, &parents, 64), Some(1));
}

#[test]
fn get_root_gives_up_on_a_cyclic_graph() {
    let mut parents = ParentGraph::new();
    parents.0.insert(1, 2);
    parents.0.insert(2, 1);
    assert_eq!(get_root(1, &parents, 64), None);
}

#[test]
fn discovery_maps_root_not_intermediate_links() {
    let (_, _, mapping, rev) = discovered_world();
    assert_eq!(mapping.0.get(&10), Some(&99));
    assert!(mapping.0.get(&55).is_none());
    assert!(mapping.0.get(&77).is_none());
    assert_eq!(rev.0.get(&99), Some(&10));
}

#[test]
fn discovery_with_no_new_players_changes_nothing() {
    let (_, _, mut mapping, mut rev) = discovered_world();
    let before_mapping = mapping.0.clone();
    let before_rev = rev.0.clone();
    let parents = ParentGraph::new();
    associate_animation_players_to_root_entities(
        &mut mapping,
        &mut rev,
        &vec![],
        &parents,
        64,
    );
    assert_eq!(mapping.0, before_mapping);
    assert_eq!(rev.0, before_rev);
}

#[test]
fn rediscovering_the_same_player_changes_nothing() {
    let (_, _, mut mapping, mut rev) = discovered_world();
    let before_mapping = mapping.0.clone();
    let before_rev = rev.0.clone();
    let mut parents = ParentGraph::new();
    parents.0.insert(99, 77);
    parents.0.insert(77, 55);
    parents.0.insert(55, 10);
    associate_animation_players_to_root_entities(
        &mut mapping,
        &mut rev,
        &vec![99],
        &parents,
        64,
    );
    assert_eq!(mapping.0, before_mapping);
    assert_eq!(rev.0, before_rev);
}

#[test]
fn purging_a_destroyed_root_invalidates_every_entry() {
    let (_, mut asset_map, mut mapping, mut rev) = discovered_world();
    purge_despawned_entity(&mut mapping, &mut rev, &mut asset_map, 10);
    assert!(mapping.0.is_empty());
    assert!(rev.0.is_empty());
    assert!(asset_map.0.get(&10).is_none());
}

#[test]
fn purging_a_destroyed_player_unmaps_its_root() {
    let (_, mut asset_map, mut mapping, mut rev) = discovered_world();
    purge_despawned_entity(&mut mapping, &mut rev, &mut asset_map, 99);
    assert!(mapping.0.get(&10).is_none());
    assert!(rev.0.get(&99).is_none());
    // The root still lives; its asset-key association stays.
    assert_eq!(asset_map.0.get(&10).map(|k| k.0.as_str()), Some("player"));
}

#[test]
fn purging_an_unknown_entity_changes_nothing() {
    let (_, mut asset_map, mut mapping, mut rev) = discovered_world();
    let before_mapping = mapping.0.clone();
    let before_rev = rev.0.clone();
    purge_despawned_entity(&mut mapping, &mut rev, &mut asset_map, 12345);
    assert_eq!(mapping.0, before_mapping);
    assert_eq!(rev.0, before_rev);
    assert_eq!(asset_map.0.get(&10).map(|k| k.0.as_str()), Some("player"));
}

#[test]
fn trigger_for_unmapped_root_is_silently_dropped() {
    let assets = registry();
    let asset_map = EntityAssetMapping::new();
    let mapping = AnimationPlayerMapping::new();
    let outcomes = trigger_animation(
        &assets,
        &asset_map,
        &mapping,
        &vec![TriggerAnimation(42, AnimationType::Walk)],
    );
    assert_eq!(outcomes, vec![TriggerOutcome::NoAnimationPlayer]);
    assert_eq!(final_command_for(&outcomes, 42), None);
}

#[test]
fn trigger_resolves_to_a_cross_fade_command() {
    let (assets, asset_map, mapping, _) = discovered_world();
    let outcomes = trigger_animation(
        &assets,
        &asset_map,
        &mapping,
        &vec![TriggerAnimation(10, AnimationType::Run)],
    );
    assert_eq!(outcomes.len(), 1);
    match outcomes[0] {
        TriggerOutcome::Command(c) => {
            assert_eq!(c.player, 99);
            assert_eq!(c.clip, 4); // the player's run clip
            assert_eq!(c.transition_ms, Some(CROSS_FADE_MS));
        }
        other => panic!("expected a command, got {:?}", other),
    }
}

#[test]
fn two_triggers_in_one_tick_apply_in_order_and_the_last_wins() {
    let (assets, asset_map, mapping, _) = discovered_world();
    let outcomes = trigger_animation(
        &assets,
        &asset_map,
        &mapping,
        &vec![
            TriggerAnimation(10, AnimationType::Walk),
            TriggerAnimation(10, AnimationType::Idle),
        ],
    );
    assert_eq!(outcomes.len(), 2);
    let clips: Vec<u64> = outcomes
        .iter()
        .map(|o| match o {
            TriggerOutcome::Command(c) => c.clip,
            other => panic!("expected a command, got {:?}", other),
        })
        .collect();
    assert_eq!(clips, vec![3, 2]); // walk then idle, in arrival order
    let last = final_command_for(&outcomes, 99).expect("a command is in effect");
    assert_eq!(last.clip, 2); // the idle clip wins
}

#[test]
fn trigger_drop_and_fatal_cases() {
    let mut assets = registry();
    assets.register(
        "broken".to_owned(),
        CharacterAssets {
            mesh: 50,
            animations: Some(Animations {
                idle: Some(51),
                walk: None,
                run: Some(52),
                take_hit: None,
                die: Some(53),
            }),
        },
    );

    let mut asset_map = EntityAssetMapping::new();
    let outcomes = spawn_mesh(
        &assets,
        &mut asset_map,
        vec![
            SpawnMesh(20, AssetKey("projectile".to_owned()), Vec3Milli { x: 0, y: 0, z: 0 }),
            SpawnMesh(30, AssetKey("broken".to_owned()), Vec3Milli { x: 0, y: 0, z: 0 }),
        ],
    );
    assert_eq!(outcomes.len(), 2);

    let mut mapping = AnimationPlayerMapping::new();
    mapping.0.insert(20, 200);
    mapping.0.insert(30, 300);
    mapping.0.insert(40, 400); // a root with a player but no asset key

    // A non-animated asset's trigger is dropped.
    let outcomes = trigger_animation(
        &assets,
        &asset_map,
        &mapping,
        &vec![TriggerAnimation(20, AnimationType::Walk)],
    );
    assert_eq!(outcomes, vec![TriggerOutcome::NotAnimated]);

    // A root with no asset-key association is dropped.
    let outcomes = trigger_animation(
        &assets,
        &asset_map,
        &mapping,
        &vec![TriggerAnimation(40, AnimationType::Walk)],
    );
    assert_eq!(outcomes, vec![TriggerOutcome::NoAssetKey]);

    // A missing clip for a requested kind is a fatal configuration error.
    let outcomes = trigger_animation(
        &assets,
        &asset_map,
        &mapping,
        &vec![TriggerAnimation(30, AnimationType::TakeHit)],
    );
    assert_eq!(outcomes, vec![TriggerOutcome::MissingClip(AnimationType::TakeHit)]);
}

#[test]
fn unregistered_key_in_the_table_is_dropped_by_dispatch() {
    let assets = registry();
    let mut asset_map = EntityAssetMapping::new();
    asset_map.0.insert(60, AssetKey("ghost".to_owned()));
    let mut mapping = AnimationPlayerMapping::new();
    mapping.0.insert(60, 600);
    let outcomes = trigger_animation(
        &assets,
        &asset_map,
        &mapping,
        &vec![TriggerAnimation(60, AnimationType::Idle)],
    );
    assert_eq!(outcomes, vec![TriggerOutcome::UnknownAssetKey]);
}

#[test]
fn newly_discovered_player_starts_idle_without_cross_fade() {
    let (assets, asset_map, _, rev) = discovered_world();
    let outcomes = start_idle_animation(&assets, &rev, &asset_map, &vec![99]);
    assert_eq!(outcomes.len(), 1);
    match outcomes[0] {
        IdleStartOutcome::Play(c) => {
            assert_eq!(c.player, 99);
            assert_eq!(c.clip, 2); // the player's idle clip
            assert_eq!(c.transition_ms, None);
        }
        other => panic!("expected an idle start, got {:?}", other),
    }
}

#[test]
fn start_idle_skips_and_fatal_cases() {
    let mut assets = registry();
    assets.register(
        "noidle".to_owned(),
        CharacterAssets {
            mesh: 70,
            animations: Some(Animations {
                idle: None,
                walk: Some(71),
                run: Some(72),
                take_hit: Some(73),
                die: Some(74),
            }),
        },
    );

    let mut asset_map = EntityAssetMapping::new();
    let _ = spawn_mesh(
        &assets,
        &mut asset_map,
        vec![
            SpawnMesh(20, AssetKey("projectile".to_owned()), Vec3Milli { x: 0, y: 0, z: 0 }),
            SpawnMesh(30, AssetKey("noidle".to_owned()), Vec3Milli { x: 0, y: 0, z: 0 }),
        ],
    );
    asset_map.0.insert(60, AssetKey("ghost".to_owned()));

    let mut rev = AnimationPlayerReverseMapping::new();
    rev.0.insert(200, 20);
    rev.0.insert(300, 30);
    rev.0.insert(600, 60);
    rev.0.insert(400, 40); // root 40 has no asset key

    let outcomes =
        start_idle_animation(&assets, &rev, &asset_map, &vec![999, 400, 600, 200, 300]);
    assert_eq!(
        outcomes,
        vec![
            IdleStartOutcome::NotDiscovered,
            IdleStartOutcome::NoAssetKey,
            IdleStartOutcome::UnknownAssetKey,
            IdleStartOutcome::NotAnimated,
            IdleStartOutcome::MissingIdleClip,
        ]
    );
}
