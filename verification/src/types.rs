//! Core data model: identifiers, animation kinds, readiness states,
//! fixed-point vectors, and the events exchanged between game phases.

use vstd::prelude::*;

verus! {

/// Symbolic key naming a bundle of mesh + animation assets
/// ("player", "enemy", "projectile", "destructible").
/// Attached to a root entity when its spawn request is issued.
#[derive(Debug, Clone)]
pub struct AssetKey(pub String);

impl View for AssetKey {
    type V = Seq<char>;

    open spec fn view(&self) -> Seq<char> {
        self.0@
    }
}

/// Closed set of animation kinds a character can be asked to play.
#[derive(Debug, Clone, Copy, PartialEq, Eq, Hash, Structural)]
pub enum AnimationType {
    Idle,
    Walk,
    Run,
    TakeHit,
    Die,
}

impl Default for AnimationType {
    /// The default animation is Idle.
    fn default() -> (r: Self)
        ensures
            r is Idle,
    {
        AnimationType::Idle
    }
}

/// Readiness of one tracked asset handle, as cached by the loading tracker.
#[derive(Debug, Clone, Copy, PartialEq, Eq, Structural)]
pub enum LoadState {
    NotLoaded,
    Loaded,
    Failed,
}

/// A 3-vector in fixed-point milli-units (1000 = one world unit).
#[derive(Debug, Clone, Copy, PartialEq, Eq, Structural)]
pub struct Vec3Milli {
    pub x: i64,
    pub y: i64,
    pub z: i64,
}

impl Vec3Milli {
    pub open spec fn spec_zero() -> Vec3Milli {
        Vec3Milli { x: 0, y: 0, z: 0 }
    }

    /// The origin / null vector.
    pub fn zero() -> (r: Vec3Milli)
        ensures
            r == Vec3Milli::spec_zero(),
    {
        Vec3Milli { x: 0, y: 0, z: 0 }
    }
}

/// Progress event: (number of assets loaded, total number tracked).
/// Consumed by the loading UI to resize its bar.
#[derive(Debug, Clone, Copy, PartialEq, Eq, Structural)]
pub struct LoadingUpdate(pub usize, pub usize);

/// Request to change the animation of the root entity `.0` to kind `.1`.
#[derive(Debug, Clone, Copy, PartialEq, Eq, Structural)]
pub struct TriggerAnimation(pub u64, pub AnimationType);

/// Request to instantiate the mesh for asset key `.1` as a child of root
/// entity `.0`, with local translation `.2`.
#[derive(Debug, Clone)]
pub struct SpawnMesh(pub u64, pub AssetKey, pub Vec3Milli);

} // verus!
