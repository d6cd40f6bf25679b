//! Animation-player discovery and trigger dispatch.
//!
//! Animation-player entities are created asynchronously by the host's scene
//! system, nested arbitrarily deep under a root entity. Each tick, the
//! newly appeared players are walked up the ownership chain to their root,
//! and the bidirectional root-to-player maps are updated. Trigger events
//! are then routed through those maps and the asset registry to concrete
//! play commands for the host's animation system.

use vstd::prelude::*;

use std::collections::HashMap;

use crate::registry::MeshAssets;
use crate::mesh_spawner::EntityAssetMapping;
use crate::types::{AnimationType, TriggerAnimation};

verus! {

/// Cross-fade duration for triggered animation changes.
pub const CROSS_FADE_MS: u64 = 250;

/// Root entity to the animation-player entity discovered beneath it
/// (at most one live player per root at a time).
#[derive(Debug)]
pub struct AnimationPlayerMapping(pub HashMap<u64, u64>);

impl AnimationPlayerMapping {
    pub fn new() -> (r: AnimationPlayerMapping)
        ensures
            r.0@ == Map::<u64, u64>::empty(),
    {
        AnimationPlayerMapping(HashMap::new())
    }
}

/// The inverse: animation-player entity back to its owning root, for
/// consumers that observe player entities directly.
#[derive(Debug)]
pub struct AnimationPlayerReverseMapping(pub HashMap<u64, u64>);

impl AnimationPlayerReverseMapping {
    pub fn new() -> (r: AnimationPlayerReverseMapping)
        ensures
            r.0@ == Map::<u64, u64>::empty(),
    {
        AnimationPlayerReverseMapping(HashMap::new())
    }
}

/// The ownership chain of the scene graph, as the capability
/// "parent of an entity, if it has one", snapshot for this tick.
#[derive(Debug)]
pub struct ParentGraph(pub HashMap<u64, u64>);

impl ParentGraph {
    pub fn new() -> (r: ParentGraph)
        ensures
            r.0@ == Map::<u64, u64>::empty(),
    {
        ParentGraph(HashMap::new())
    }
}

/// Walking up the ownership chain from `e` with `fuel` steps to spend:
/// the first parentless ancestor, or nothing if the walk runs out of fuel
/// (a chain deeper than expected, or an accidental cycle).
pub open spec fn root_of(parents: Map<u64, u64>, e: u64, fuel: nat) -> Option<u64>
    decreases fuel,
{
    if !parents.dom().contains(e) {
        Some(e)
    } else if fuel == 0 {
        None
    } else {
        root_of(parents, parents[e], (fuel - 1) as nat)
    }
}

/// Root resolution: whatever the walk resolves to has no parent, so a
/// chain of any length resolves to its terminal ancestor, never to an
/// intermediate link.
pub proof fn lemma_root_is_parentless(parents: Map<u64, u64>, e: u64, fuel: nat)
    requires
        root_of(parents, e, fuel) is Some,
    ensures
        !parents.dom().contains(root_of(parents, e, fuel).unwrap()),
    decreases fuel,
{
    if parents.dom().contains(e) {
        lemma_root_is_parentless(parents, parents[e], (fuel - 1) as nat);
    }
}

/// Each parent link is walked through: an entity with a parent resolves
/// exactly as its parent does, one fuel step later.
pub proof fn lemma_root_step(parents: Map<u64, u64>, e: u64, fuel: nat)
    requires
        parents.dom().contains(e),
        fuel > 0,
    ensures
        root_of(parents, e, fuel) == root_of(parents, parents[e], (fuel - 1) as nat),
{
}

/// Walk the ownership chain upward from `entity` until the first
/// parentless ancestor, spending at most `max_depth` steps; the bound
/// guards against an accidentally cyclic graph.
pub fn get_root(entity: u64, parents: &ParentGraph, max_depth: u64) -> (r: Option<u64>)
    ensures
        r == root_of(parents.0@, entity, max_depth as nat),
{
    let mut cur = entity;
    let mut fuel = max_depth;
    loop
        invariant
            root_of(parents.0@, entity, max_depth as nat) == root_of(
                parents.0@,
                cur,
                fuel as nat,
            ),
        decreases fuel,
    {
        match parents.0.get(&cur) {
            None => {
                return Some(cur);
            },
            Some(parent) => {
                if fuel == 0 {
                    return None;
                }
                cur = *parent;
                fuel = fuel - 1;
            },
        }
    }
}

/// Discovery folded over the newly appeared players, in order: each player
/// that resolves to a root is recorded in both maps; one whose walk fails
/// is skipped this tick.
pub open spec fn associate_spec(
    mapping: Map<u64, u64>,
    rev: Map<u64, u64>,
    players: Seq<u64>,
    parents: Map<u64, u64>,
    fuel: nat,
) -> (Map<u64, u64>, Map<u64, u64>)
    decreases players.len(),
{
    if players.len() == 0 {
        (mapping, rev)
    } else {
        let p = players[0];
        match root_of(parents, p, fuel) {
            Some(root) => associate_spec(
                mapping.insert(root, p),
                rev.insert(p, root),
                players.drop_first(),
                parents,
                fuel,
            ),
            None => associate_spec(mapping, rev, players.drop_first(), parents, fuel),
        }
    }
}

/// Record, for every animation-player entity that appeared since the
/// previous tick, which root entity owns it (and the reverse).
pub fn associate_animation_players_to_root_entities(
    mapping: &mut AnimationPlayerMapping,
    rev_mapping: &mut AnimationPlayerReverseMapping,
    players: &Vec<u64>,
    parents: &ParentGraph,
    max_depth: u64,
)
    ensures
        final(mapping).0@ == associate_spec(
            old(mapping).0@,
            old(rev_mapping).0@,
            players@,
            parents.0@,
            max_depth as nat,
        ).0,
        final(rev_mapping).0@ == associate_spec(
            old(mapping).0@,
            old(rev_mapping).0@,
            players@,
            parents.0@,
            max_depth as nat,
        ).1,
{
    let ghost m0 = mapping.0@;
    let ghost r0 = rev_mapping.0@;
    let n = players.len();
    let mut i: usize = 0;
    proof {
        assert(players@.skip(0) =~= players@);
    }
    while i < n
        invariant
            0 <= i <= n,
            n == players@.len(),
            associate_spec(m0, r0, players@, parents.0@, max_depth as nat)
                == associate_spec(
                mapping.0@,
                rev_mapping.0@,
                players@.skip(i as int),
                parents.0@,
                max_depth as nat,
            ),
        decreases n - i,
    {
        let player = players[i];
        proof {
            assert(players@.skip(i as int)[0] == players@[i as int]);
            assert(players@.skip(i as int).drop_first() =~= players@.skip(i as int + 1));
        }
        match get_root(player, parents, max_depth) {
            Some(root) => {
                mapping.0.insert(root, player);
                rev_mapping.0.insert(player, root);
            },
            None => {},
        }
        i = i + 1;
    }
    proof {
        assert(players@.skip(n as int) =~= Seq::<u64>::empty());
    }
}

/// Root resolution through discovery: a newly observed player whose walk
/// reaches a terminal ancestor is recorded under exactly that ancestor —
/// which, by `lemma_root_is_parentless`, is the parentless root of its
/// chain, never an intermediate link.
pub proof fn lemma_discovery_maps_root(
    mapping: Map<u64, u64>,
    rev: Map<u64, u64>,
    player: u64,
    parents: Map<u64, u64>,
    fuel: nat,
)
    requires
        root_of(parents, player, fuel) is Some,
    ensures
        ({
            let root = root_of(parents, player, fuel).unwrap();
            associate_spec(mapping, rev, seq![player], parents, fuel) == (
                mapping.insert(root, player),
                rev.insert(player, root),
            )
        }),
{
    let players = seq![player];
    let root = root_of(parents, player, fuel).unwrap();
    assert(players[0] == player);
    assert(players.drop_first() =~= Seq::<u64>::empty());
    lemma_discovery_idempotent_empty(
        mapping.insert(root, player),
        rev.insert(player, root),
        parents,
        fuel,
    );
}

/// Discovery idempotence: a pass that observes no newly created players
/// leaves both maps exactly as they were.
pub proof fn lemma_discovery_idempotent_empty(
    mapping: Map<u64, u64>,
    rev: Map<u64, u64>,
    parents: Map<u64, u64>,
    fuel: nat,
)
    ensures
        associate_spec(mapping, rev, Seq::empty(), parents, fuel) == (mapping, rev),
{
}

/// Discovery idempotence, re-observation form: a pass over players whose
/// associations are already recorded changes nothing.
pub proof fn lemma_discovery_idempotent(
    mapping: Map<u64, u64>,
    rev: Map<u64, u64>,
    players: Seq<u64>,
    parents: Map<u64, u64>,
    fuel: nat,
)
    requires
        forall|i: int|
            0 <= i < players.len() ==> match root_of(parents, #[trigger] players[i], fuel) {
                Some(root) => {
                    &&& mapping.contains_key(root)
                    &&& mapping[root] == players[i]
                    &&& rev.contains_key(players[i])
                    &&& rev[players[i]] == root
                },
                None => true,
            },
    ensures
        associate_spec(mapping, rev, players, parents, fuel) == (mapping, rev),
    decreases players.len(),
{
    if players.len() > 0 {
        let p = players[0];
        assert forall|i: int|
            0 <= i < players.drop_first().len() ==> match root_of(
                parents,
                #[trigger] players.drop_first()[i],
                fuel,
            ) {
                Some(root) => {
                    &&& mapping.contains_key(root)
                    &&& mapping[root] == players.drop_first()[i]
                    &&& rev.contains_key(players.drop_first()[i])
                    &&& rev[players.drop_first()[i]] == root
                },
                None => true,
            } by {
            assert forall|i: int| 0 <= i < players.drop_first().len() implies players.drop_first()[
                i
            ] == players[i + 1] by {}
        }
        match root_of(parents, p, fuel) {
            Some(root) => {
                assert(mapping.insert(root, p) =~= mapping);
                assert(rev.insert(p, root) =~= rev);
                lemma_discovery_idempotent(mapping, rev, players.drop_first(), parents, fuel);
            },
            None => {
                lemma_discovery_idempotent(mapping, rev, players.drop_first(), parents, fuel);
            },
        }
    }
}

/// The root-to-player and player-to-root maps agree: each is exactly the
/// other's inverse.
pub open spec fn maps_consistent(mapping: Map<u64, u64>, rev: Map<u64, u64>) -> bool {
    &&& forall|root: u64|
        #[trigger] mapping.contains_key(root) ==> rev.contains_key(mapping[root])
            && rev[mapping[root]] == root
    &&& forall|player: u64|
        #[trigger] rev.contains_key(player) ==> mapping.contains_key(rev[player])
            && mapping[rev[player]] == player
}

/// Despawn cleanup applied to the two maps: drop the entity's entry from
/// each side, and the matching entry it was paired with on the other side.
pub open spec fn purge_maps(mapping: Map<u64, u64>, rev: Map<u64, u64>, entity: u64) -> (
    Map<u64, u64>,
    Map<u64, u64>,
) {
    let m1 = mapping.remove(entity);
    let r1 = if mapping.contains_key(entity) {
        rev.remove(mapping[entity])
    } else {
        rev
    };
    if r1.contains_key(entity) {
        let root = r1[entity];
        let m2 = if m1.contains_key(root) && m1[root] == entity {
            m1.remove(root)
        } else {
            m1
        };
        (m2, r1.remove(entity))
    } else {
        (m1, r1)
    }
}

/// Invalidate every mapping-table entry keyed by or paired with a
/// destroyed entity, whether it was a root or an animation player, so no
/// stale lookup can resolve through a recycled entity id.
pub fn purge_despawned_entity(
    mapping: &mut AnimationPlayerMapping,
    rev_mapping: &mut AnimationPlayerReverseMapping,
    asset_map: &mut EntityAssetMapping,
    entity: u64,
)
    ensures
        final(asset_map).0@ == old(asset_map).0@.remove(entity),
        final(mapping).0@ == purge_maps(old(mapping).0@, old(rev_mapping).0@, entity).0,
        final(rev_mapping).0@ == purge_maps(old(mapping).0@, old(rev_mapping).0@, entity).1,
{
    asset_map.0.remove(&entity);
    let removed_player = mapping.0.remove(&entity);
    if let Some(player) = removed_player {
        rev_mapping.0.remove(&player);
    }
    let removed_root = rev_mapping.0.remove(&entity);
    if let Some(root) = removed_root {
        let points_back = match mapping.0.get(&root) {
            Some(player) => *player == entity,
            None => false,
        };
        if points_back {
            mapping.0.remove(&root);
        }
    }
}

/// Despawn cleanup is complete: on consistent maps, purging an entity
/// leaves no entry that mentions it, on either side of either map, and
/// the maps stay consistent.
pub proof fn lemma_purge_removes_entity(
    mapping: Map<u64, u64>,
    rev: Map<u64, u64>,
    entity: u64,
)
    requires
        maps_consistent(mapping, rev),
    ensures
        ({
            let purged = purge_maps(mapping, rev, entity);
            &&& !purged.0.contains_key(entity)
            &&& !purged.1.contains_key(entity)
            &&& forall|root: u64|
                #[trigger] purged.0.contains_key(root) ==> purged.0[root] != entity
            &&& forall|player: u64|
                #[trigger] purged.1.contains_key(player) ==> purged.1[player] != entity
            &&& maps_consistent(purged.0, purged.1)
        }),
{
}

/// Recording one discovered pair keeps the maps mutually inverse, whether
/// the pair is brand new or a re-observation of what is already recorded.
pub proof fn lemma_associate_pair_preserves_consistency(
    mapping: Map<u64, u64>,
    rev: Map<u64, u64>,
    root: u64,
    player: u64,
)
    requires
        maps_consistent(mapping, rev),
        (!mapping.contains_key(root) && !rev.contains_key(player)) || (
        mapping.contains_key(root) && mapping[root] == player && rev.contains_key(player)
            && rev[player] == root),
    ensures
        maps_consistent(mapping.insert(root, player), rev.insert(player, root)),
{
}

/// Command for the host's animation system: have `player` play `clip`,
/// looping, blending over `transition_ms` if given, else immediately.
#[derive(Debug, Clone, Copy, PartialEq, Eq, Structural)]
pub struct AnimationCommand {
    pub player: u64,
    pub clip: u64,
    pub transition_ms: Option<u64>,
}

/// What became of one newly discovered animation player in the
/// start-idle pass.
#[derive(Debug, Clone, Copy, PartialEq, Eq, Structural)]
pub enum IdleStartOutcome {
    /// Its root has an asset key with a registered idle clip: start it.
    Play(AnimationCommand),
    /// No root recorded for this player yet: a benign race, skip.
    NotDiscovered,
    /// Its root has no asset-key association yet: a benign race, skip.
    NoAssetKey,
    /// The root's key is not in the registry: skip.
    UnknownAssetKey,
    /// The key names a non-animated asset: nothing to start.
    NotAnimated,
    /// The key is animated but has no idle clip: a fatal configuration
    /// error; the caller must abort loudly.
    MissingIdleClip,
}

/// The start-idle decision for one newly appeared animation player.
pub open spec fn start_idle_one(
    assets: MeshAssets,
    rev: Map<u64, u64>,
    table: Map<u64, crate::types::AssetKey>,
    animator: u64,
) -> IdleStartOutcome {
    if !rev.contains_key(animator) {
        IdleStartOutcome::NotDiscovered
    } else if !table.contains_key(rev[animator]) {
        IdleStartOutcome::NoAssetKey
    } else {
        match assets.spec_get(table[rev[animator]]@) {
            None => IdleStartOutcome::UnknownAssetKey,
            Some(ca) => match ca.animations {
                None => IdleStartOutcome::NotAnimated,
                Some(anims) => match anims.spec_get(AnimationType::Idle) {
                    None => IdleStartOutcome::MissingIdleClip,
                    Some(clip) => IdleStartOutcome::Play(
                        AnimationCommand { player: animator, clip, transition_ms: None },
                    ),
                },
            },
        }
    }
}

/// For each animation player that first appeared this tick and whose root
/// already has an asset-key association, start the idle clip immediately,
/// with no cross-fade: every character begins animating before its owner
/// emits an explicit trigger.
pub fn start_idle_animation(
    assets: &MeshAssets,
    rev_mapping: &AnimationPlayerReverseMapping,
    asset_map: &EntityAssetMapping,
    new_animators: &Vec<u64>,
) -> (outcomes: Vec<IdleStartOutcome>)
    ensures
        outcomes@.len() == new_animators@.len(),
        forall|i: int|
            0 <= i < new_animators@.len() ==> #[trigger] outcomes@[i] == start_idle_one(
                *assets,
                rev_mapping.0@,
                asset_map.0@,
                new_animators@[i],
            ),
{
    let n = new_animators.len();
    let mut outcomes: Vec<IdleStartOutcome> = Vec::new();
    let mut i: usize = 0;
    while i < n
        invariant
            0 <= i <= n,
            n == new_animators@.len(),
            outcomes@.len() == i,
            forall|j: int|
                0 <= j < i ==> #[trigger] outcomes@[j] == start_idle_one(
                    *assets,
                    rev_mapping.0@,
                    asset_map.0@,
                    new_animators@[j],
                ),
        decreases n - i,
    {
        let animator = new_animators[i];
        let outcome = match rev_mapping.0.get(&animator) {
            None => IdleStartOutcome::NotDiscovered,
            Some(root) => match asset_map.0.get(root) {
                None => IdleStartOutcome::NoAssetKey,
                Some(key) => match assets.get(&key.0) {
                    None => IdleStartOutcome::UnknownAssetKey,
                    Some(ca) => match ca.animations {
                        None => IdleStartOutcome::NotAnimated,
                        Some(anims) => match anims.get(AnimationType::Idle) {
                            None => IdleStartOutcome::MissingIdleClip,
                            Some(clip) => IdleStartOutcome::Play(
                                AnimationCommand {
                                    player: animator,
                                    clip,
                                    transition_ms: None,
                                },
                            ),
                        },
                    },
                },
            },
        };
        outcomes.push(outcome);
        i = i + 1;
    }
    outcomes
}

/// What became of one trigger event.
#[derive(Debug, Clone, Copy, PartialEq, Eq, Structural)]
pub enum TriggerOutcome {
    /// Fully resolved: command the player to cross-fade into the clip.
    Command(AnimationCommand),
    /// The root has no discovered animation player yet: a benign race,
    /// the event is silently dropped.
    NoAnimationPlayer,
    /// The root has no asset-key association yet: a benign race, dropped.
    NoAssetKey,
    /// The root's key is not in the registry: dropped.
    UnknownAssetKey,
    /// The key names a non-animated asset: dropped.
    NotAnimated,
    /// The key is animated but has no clip for the requested kind: a
    /// fatal configuration error; the caller must abort loudly.
    MissingClip(AnimationType),
}

/// The dispatch decision for one trigger event.
pub open spec fn dispatch_one(
    assets: MeshAssets,
    table: Map<u64, crate::types::AssetKey>,
    mapping: Map<u64, u64>,
    event: TriggerAnimation,
) -> TriggerOutcome {
    if !mapping.contains_key(event.0) {
        TriggerOutcome::NoAnimationPlayer
    } else if !table.contains_key(event.0) {
        TriggerOutcome::NoAssetKey
    } else {
        match assets.spec_get(table[event.0]@) {
            None => TriggerOutcome::UnknownAssetKey,
            Some(ca) => match ca.animations {
                None => TriggerOutcome::NotAnimated,
                Some(anims) => match anims.spec_get(event.1) {
                    None => TriggerOutcome::MissingClip(event.1),
                    Some(clip) => TriggerOutcome::Command(
                        AnimationCommand {
                            player: mapping[event.0],
                            clip,
                            transition_ms: Some(CROSS_FADE_MS),
                        },
                    ),
                },
            },
        }
    }
}

/// Consume the trigger events in arrival order, without reordering or
/// coalescing: two triggers for the same entity in one tick yield two
/// commands in order, so the later one wins. Dropping is silent for the
/// benign races; a missing clip for a requested kind is reported as fatal.
pub fn trigger_animation(
    assets: &MeshAssets,
    asset_map: &EntityAssetMapping,
    animator_map: &AnimationPlayerMapping,
    events: &Vec<TriggerAnimation>,
) -> (outcomes: Vec<TriggerOutcome>)
    ensures
        outcomes@.len() == events@.len(),
        forall|i: int|
            0 <= i < events@.len() ==> #[trigger] outcomes@[i] == dispatch_one(
                *assets,
                asset_map.0@,
                animator_map.0@,
                events@[i],
            ),
{
    let n = events.len();
    let mut outcomes: Vec<TriggerOutcome> = Vec::new();
    let mut i: usize = 0;
    while i < n
        invariant
            0 <= i <= n,
            n == events@.len(),
            outcomes@.len() == i,
            forall|j: int|
                0 <= j < i ==> #[trigger] outcomes@[j] == dispatch_one(
                    *assets,
                    asset_map.0@,
                    animator_map.0@,
                    events@[j],
                ),
        decreases n - i,
    {
        let event = events[i];
        let outcome = match animator_map.0.get(&event.0) {
            None => TriggerOutcome::NoAnimationPlayer,
            Some(player) => match asset_map.0.get(&event.0) {
                None => TriggerOutcome::NoAssetKey,
                Some(key) => match assets.get(&key.0) {
                    None => TriggerOutcome::UnknownAssetKey,
                    Some(ca) => match ca.animations {
                        None => TriggerOutcome::NotAnimated,
                        Some(anims) => match anims.get(event.1) {
                            None => TriggerOutcome::MissingClip(event.1),
                            Some(clip) => TriggerOutcome::Command(
                                AnimationCommand {
                                    player: *player,
                                    clip,
                                    transition_ms: Some(CROSS_FADE_MS),
                                },
                            ),
                        },
                    },
                },
            },
        };
        outcomes.push(outcome);
        i = i + 1;
    }
    outcomes
}

/// Trigger drop on missing mapping: an event for a root with no discovered
/// animation player yields no command at all, and nothing fatal.
pub proof fn lemma_trigger_drop_on_missing_mapping(
    assets: MeshAssets,
    table: Map<u64, crate::types::AssetKey>,
    mapping: Map<u64, u64>,
    event: TriggerAnimation,
)
    requires
        !mapping.contains_key(event.0),
    ensures
        dispatch_one(assets, table, mapping, event) is NoAnimationPlayer,
{
}

/// The command that ends up in effect for `player` after the outcomes are
/// applied in order: the last command addressed to it, if any.
pub open spec fn last_command_for(outcomes: Seq<TriggerOutcome>, player: u64) -> Option<
    AnimationCommand,
>
    decreases outcomes.len(),
{
    if outcomes.len() == 0 {
        None
    } else {
        match outcomes.last() {
            TriggerOutcome::Command(c) => if c.player == player {
                Some(c)
            } else {
                last_command_for(outcomes.drop_last(), player)
            },
            _ => last_command_for(outcomes.drop_last(), player),
        }
    }
}

/// The command left in effect for `player` once every outcome of the tick
/// has been applied in arrival order (last write wins).
pub fn final_command_for(outcomes: &Vec<TriggerOutcome>, player: u64) -> (r: Option<
    AnimationCommand,
>)
    ensures
        r == last_command_for(outcomes@, player),
{
    let n = outcomes.len();
    let mut found: Option<AnimationCommand> = None;
    let mut i: usize = 0;
    proof {
        assert(outcomes@.take(0) =~= Seq::<TriggerOutcome>::empty());
    }
    while i < n
        invariant
            0 <= i <= n,
            n == outcomes@.len(),
            found == last_command_for(outcomes@.take(i as int), player),
        decreases n - i,
    {
        proof {
            assert(outcomes@.take(i as int + 1).drop_last() =~= outcomes@.take(i as int));
            assert(outcomes@.take(i as int + 1).last() == outcomes@[i as int]);
        }
        match outcomes[i] {
            TriggerOutcome::Command(c) => {
                if c.player == player {
                    found = Some(c);
                }
            },
            _ => {},
        }
        i = i + 1;
    }
    proof {
        assert(outcomes@.take(n as int) =~= outcomes@);
    }
    found
}

} // verus!
