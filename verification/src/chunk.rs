//! A chunk of cells with its mesh.

use crate::chunk_data::ChunkData;
use crate::position::ChunkPosition;
use vstd::prelude::*;

verus! {

/// A token for a mesh held by the renderer. The renderer issues it; this
/// library stores it and never looks inside.
#[derive(Debug, Copy, Clone, Ord, PartialOrd, Eq, PartialEq, Structural, Hash)]
pub struct MeshHandle(pub u64);

/// A chunk of cells with its place in the world and its mesh.
pub struct Chunk<T> {
    pub mesh: MeshHandle,
    pub position: ChunkPosition,
    pub data: ChunkData<T>,
}

} // verus!
