//! Terrain streamed in chunks around a tracked position.

pub mod chunk;
pub mod chunk_map;
pub mod loader;
pub mod marching_squares;

use crate::terrain::chunk::CellSize;
use crate::terrain::chunk::ChunkSize;
use crate::terrain::chunk::fits_world;
use crate::terrain::chunk::Noise;
use crate::terrain::chunk::NoiseThreshold;
use crate::terrain::chunk::spec_fits_world;
use vstd::prelude::*;

verus! {

/// The most cells a chunk may have: twelve vertices per cell must stay
/// countable by a `u32` index.
pub const MAX_CELLS: usize = 357_913_941;

/// The configuration of the terrain.
#[derive(Debug, Copy, Clone, Eq, PartialEq, Structural)]
pub struct ChunkInfo {
    pub chunk_size: ChunkSize,
    pub cell_size: CellSize,
    pub noise: Noise,
    pub threshold: NoiseThreshold,
}

impl Default for ChunkInfo {
    fn default() -> (r: Self)
        ensures
            r.chunk_size == ChunkSize(64, 64),
            r.cell_size == CellSize(8, 8),
            r.noise == (Noise { scale_numerator: 7, scale_denominator: 1000 }),
            r.threshold == NoiseThreshold(200_000),
            r.spec_is_valid(),
    {
        let r = ChunkInfo {
            chunk_size: ChunkSize::default(),
            cell_size: CellSize::default(),
            noise: Noise::default(),
            threshold: NoiseThreshold::default(),
        };
        assert(r.spec_is_valid()) by {
            assert(64 * 64 == 4096 && 64 * 8 == 512) by (nonlinear_arith);
        }
        r
    }
}

impl ChunkInfo {
    /// The sizes are positive, a chunk spans at most `MAX_CHUNK_EXTENT` world
    /// units along each axis, and it has at most [`MAX_CELLS`] cells.
    pub open spec fn spec_is_valid(&self) -> bool {
        &&& spec_fits_world(self.chunk_size, self.cell_size)
        &&& self.chunk_size.0 * self.chunk_size.1 <= MAX_CELLS
    }

    /// Decides [`ChunkInfo::spec_is_valid`].
    #[verifier::when_used_as_spec(spec_is_valid)]
    pub fn is_valid(&self) -> (b: bool)
        ensures
            b == self.spec_is_valid(),
    {
        if !fits_world(self.chunk_size, self.cell_size) {
            return false;
        }
        let (w, h) = (self.chunk_size.0, self.chunk_size.1);
        assert(w <= 0x7fff_ffff && h <= 0x7fff_ffff) by (nonlinear_arith)
            requires
                0 < w,
                0 < h,
                0 < self.cell_size.0,
                0 < self.cell_size.1,
                w * self.cell_size.0 <= 0x7fff_ffff,
                h * self.cell_size.1 <= 0x7fff_ffff,
        ;
        assert(w * h <= 0x7fff_ffff * 0x7fff_ffff) by (nonlinear_arith)
            requires
                0 < w <= 0x7fff_ffff,
                0 < h <= 0x7fff_ffff,
        ;
        (w as u64) * (h as u64) <= MAX_CELLS as u64
    }
}

/// How many chunks around a viewer are in view, along each axis.
#[derive(Debug, Copy, Clone, Ord, PartialOrd, Eq, PartialEq, Structural, Hash)]
pub struct ChunkLoadDistance(usize);

impl Default for ChunkLoadDistance {
    fn default() -> (r: Self)
        ensures
            r.spec_distance() == 1,
    {
        ChunkLoadDistance(1)
    }
}

impl ChunkLoadDistance {
    /// The distance, in chunks.
    pub closed spec fn spec_distance(&self) -> usize {
        self.0
    }

    /// A load distance of `distance` chunks.
    pub fn new(distance: usize) -> (r: Self)
        ensures
            r.spec_distance() == distance,
    {
        ChunkLoadDistance(distance)
    }

    /// The distance, in chunks.
    #[verifier::when_used_as_spec(spec_distance)]
    pub fn distance(&self) -> (d: usize)
        ensures
            d == self.spec_distance(),
    {
        self.0
    }
}

} // verus!
