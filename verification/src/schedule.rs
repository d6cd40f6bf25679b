//! The ordered phases of one frame. The host scheduler runs them in the
//! order given by `phase_index`, flushing all pending entity-structure
//! mutations at the barrier after the spawn phase so that hierarchies
//! created during spawning are visible to the discovery pass.

use vstd::prelude::*;

verus! {

#[derive(Debug, Clone, Copy, PartialEq, Eq, Hash, Structural)]
pub enum GameLoopSchedules {
    ProcessInput,
    Spawn,
    PostSpawn,
    EntityUpdates,
    CollisionDetection,
    Despawn,
}

impl GameLoopSchedules {
    pub open spec fn spec_index(self) -> int {
        match self {
            GameLoopSchedules::ProcessInput => 0,
            GameLoopSchedules::Spawn => 1,
            GameLoopSchedules::PostSpawn => 2,
            GameLoopSchedules::EntityUpdates => 3,
            GameLoopSchedules::CollisionDetection => 4,
            GameLoopSchedules::Despawn => 5,
        }
    }

    /// Position of this phase in the frame; phases run in increasing order.
    pub fn phase_index(self) -> (r: u8)
        ensures
            r == self.spec_index(),
    {
        match self {
            GameLoopSchedules::ProcessInput => 0,
            GameLoopSchedules::Spawn => 1,
            GameLoopSchedules::PostSpawn => 2,
            GameLoopSchedules::EntityUpdates => 3,
            GameLoopSchedules::CollisionDetection => 4,
            GameLoopSchedules::Despawn => 5,
        }
    }

    /// A hard synchronization barrier follows exactly the spawn phase:
    /// entity creations queued there are materialized before the next phase.
    pub fn flush_after(self) -> (r: bool)
        ensures
            r == (self is Spawn),
    {
        matches!(self, GameLoopSchedules::Spawn)
    }
}

/// The spawn phase runs strictly before the discovery (post-spawn) phase,
/// which runs strictly before per-entity updates; so every hierarchy
/// spawned this frame is observed by discovery before any update uses it.
pub proof fn lemma_spawn_before_discovery()
    ensures
        GameLoopSchedules::Spawn.spec_index() < GameLoopSchedules::PostSpawn.spec_index(),
        GameLoopSchedules::PostSpawn.spec_index()
            < GameLoopSchedules::EntityUpdates.spec_index(),
{
}

} // verus!
