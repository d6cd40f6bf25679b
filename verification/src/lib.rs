//! Verified core of a small wave-survival action game.
//!
//! The library models the entity lifecycle and cross-cutting state
//! synchronization that keep independently evolving subsystems consistent:
//! asset-loading readiness, mesh spawning, discovery of asynchronously
//! created animation-player entities, and animation-trigger dispatch.
//! Entities and asset handles are plain `u64` identifiers handed in by the
//! host engine; geometry uses fixed-point milli-units so that every decision
//! is exact and provable.

pub mod animator;
pub mod enemy;
pub mod loader;
pub mod mesh_spawner;
pub mod movement;
pub mod player;
pub mod registry;
pub mod schedule;
pub mod state;
pub mod timer;
pub mod types;
pub mod ui;
