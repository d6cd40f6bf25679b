//! Mesh spawning pipeline: consumes spawn-request events in arrival order.
//! A request whose asset key is registered records the root-entity-to-key
//! association and yields an instantiation directive for the host's scene
//! system; a request with an unregistered key is dropped with a warning
//! outcome and must never fail the frame.

use vstd::prelude::*;

use std::collections::HashMap;

use crate::registry::MeshAssets;
use crate::types::{AssetKey, SpawnMesh, Vec3Milli};

verus! {

/// Which asset key each spawned root entity uses; written exactly when a
/// spawn request is fulfilled, read later by the animation logic.
#[derive(Debug)]
pub struct EntityAssetMapping(pub HashMap<u64, AssetKey>);

impl EntityAssetMapping {
    pub fn new() -> (r: EntityAssetMapping)
        ensures
            r.0@ == Map::<u64, AssetKey>::empty(),
    {
        EntityAssetMapping(HashMap::new())
    }
}

/// Directive to the host's scene system: instantiate `mesh` as a new child
/// of `parent`, with the given local translation. The instantiation is
/// asynchronous: any animation player inside the mesh's hierarchy appears
/// some frames later.
#[derive(Debug, Clone, Copy, PartialEq, Eq, Structural)]
pub struct MeshInstantiation {
    pub mesh: u64,
    pub parent: u64,
    pub transform: Vec3Milli,
}

/// What became of one spawn request.
#[derive(Debug, Clone, Copy, PartialEq, Eq, Structural)]
pub enum SpawnOutcome {
    /// The key was registered: the association was recorded and the host
    /// must instantiate the mesh.
    Instantiate(MeshInstantiation),
    /// The key was not registered: the request for this root entity is
    /// dropped, with a warning.
    UnknownAssetKey(u64),
}

/// The whole queue processed in arrival order: the association table after
/// every fulfilled request, and one outcome per request.
pub open spec fn spawn_mesh_spec(
    assets: MeshAssets,
    table: Map<u64, AssetKey>,
    events: Seq<SpawnMesh>,
) -> (Map<u64, AssetKey>, Seq<SpawnOutcome>)
    decreases events.len(),
{
    if events.len() == 0 {
        (table, Seq::empty())
    } else {
        let ev = events[0];
        match assets.spec_get(ev.1@) {
            Some(ca) => {
                let rest = spawn_mesh_spec(assets, table.insert(ev.0, ev.1), events.drop_first());
                (
                    rest.0,
                    seq![
                        SpawnOutcome::Instantiate(
                            MeshInstantiation { mesh: ca.mesh, parent: ev.0, transform: ev.2 },
                        )
                    ] + rest.1,
                )
            },
            None => {
                let rest = spawn_mesh_spec(assets, table, events.drop_first());
                (rest.0, seq![SpawnOutcome::UnknownAssetKey(ev.0)] + rest.1)
            },
        }
    }
}

/// Consume the queued spawn requests in arrival order. For each request
/// whose key is registered, record the association (overwriting any prior
/// value) and emit the instantiation directive; drop the others with a
/// warning outcome. Never panics, whatever the queue holds.
pub fn spawn_mesh(
    assets: &MeshAssets,
    asset_map: &mut EntityAssetMapping,
    events: Vec<SpawnMesh>,
) -> (outcomes: Vec<SpawnOutcome>)
    ensures
        final(asset_map).0@ == spawn_mesh_spec(*assets, old(asset_map).0@, events@).0,
        outcomes@ == spawn_mesh_spec(*assets, old(asset_map).0@, events@).1,
{
    let ghost table0 = asset_map.0@;
    let ghost events0 = events@;
    let mut events = events;
    let mut outcomes: Vec<SpawnOutcome> = Vec::new();
    while events.len() > 0
        invariant
            spawn_mesh_spec(*assets, table0, events0).0 == spawn_mesh_spec(
                *assets,
                asset_map.0@,
                events@,
            ).0,
            spawn_mesh_spec(*assets, table0, events0).1 == outcomes@ + spawn_mesh_spec(
                *assets,
                asset_map.0@,
                events@,
            ).1,
        decreases events@.len(),
    {
        let ghost table_pre = asset_map.0@;
        let ghost events_pre = events@;
        let ev = events.remove(0);
        proof {
            assert(events_pre[0] == ev);
            assert(events_pre.drop_first() =~= events@);
        }
        match assets.get(&ev.1.0) {
            Some(ca) => {
                let directive = MeshInstantiation { mesh: ca.mesh, parent: ev.0, transform: ev.2 };
                asset_map.0.insert(ev.0, ev.1);
                outcomes.push(SpawnOutcome::Instantiate(directive));
            },
            None => {
                outcomes.push(SpawnOutcome::UnknownAssetKey(ev.0));
            },
        }
        proof {
            assert(spawn_mesh_spec(*assets, table0, events0).1 == outcomes@ + spawn_mesh_spec(
                *assets,
                asset_map.0@,
                events@,
            ).1);
        }
    }
    proof {
        assert(events@ =~= Seq::<SpawnMesh>::empty());
        assert(outcomes@ + Seq::<SpawnOutcome>::empty() =~= outcomes@);
    }
    outcomes
}

} // verus!
