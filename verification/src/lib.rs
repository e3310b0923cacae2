//! Chunked terrain: grid coordinates, sampled scalar fields, contour meshes and
//! the bookkeeping of which chunks are live around a viewer.
//!
//! Everything is exact integer arithmetic. Points of the plane count half
//! world units ([`Vec2`]), so that centres and edge midpoints need no rounding,
//! and samples of the scalar field are fixed-point numbers
//! ([`terrain::chunk::SAMPLE_UNIT`] to the unit).
//!
//! The modules at the root describe a grid that is centred on the origin. The
//! [`terrain`] module holds the terrain proper: chunks of samples, their
//! contour meshes, and the cache that follows a viewer through the world.

mod cast;
pub mod chunk;
pub mod chunk_data;
pub mod position;
pub mod size;
pub mod terrain;
pub mod vec2;

pub use crate::chunk::Chunk;
pub use crate::chunk::MeshHandle;
pub use crate::chunk_data::ChunkData;
pub use crate::position::CellPosition;
pub use crate::position::ChunkPosition;
pub use crate::size::CellSize;
pub use crate::size::ChunkSize;
pub use crate::vec2::Vec2;
