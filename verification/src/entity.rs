use vstd::prelude::*;

verus! {

/// A generation-counted handle to an entity.
///
/// An entity has no intrinsic data: the handle is only a key into the
/// world's component columns. The generation lets the world tell a live
/// handle apart from a handle that survived a despawn of its slot.
#[derive(Clone, Copy, PartialEq, Eq, Structural, Debug)]
pub struct Entity {
    /// Index of the registry slot this handle addresses.
    pub slot: usize,
    /// Generation of the slot at the time the handle was issued.
    pub generation: u64,
}

/// One identifier slot of the entity registry.
///
/// The generation is incremented every time the slot's entity is despawned,
/// so handles issued before the despawn no longer match.
#[derive(Clone, Copy, PartialEq, Eq, Structural, Debug)]
pub struct Slot {
    /// Current generation of the slot.
    pub generation: u64,
    /// Whether the slot currently holds a live entity.
    pub alive: bool,
}

} // verus!
