//! Sizes of chunks, in cells, and of cells, in world units.

use crate::cast::usize_to_i64;
use crate::cast::usize_to_usize;
use crate::vec2::Vec2;
use vstd::prelude::*;

verus! {

/// The largest world extent of a chunk along an axis, in whole units.
pub const MAX_WORLD_EXTENT: usize = 0x7fff_ffff;

/// The size of a chunk in cells.
#[derive(Debug, Copy, Clone, Ord, PartialOrd, Eq, PartialEq, Structural, Hash)]
pub struct ChunkSize {
    pub width: usize,
    pub height: usize,
}

/// The size of each cell in the chunk, in whole world units.
#[derive(Debug, Copy, Clone, Ord, PartialOrd, Eq, PartialEq, Structural, Hash)]
pub struct CellSize {
    pub width: usize,
    pub height: usize,
}

/// `v` as a coordinate in half units.
fn doubled(v: usize) -> (r: i64)
    requires
        2 * v <= i64::MAX,
    ensures
        r == 2 * v,
{
    let whole = usize_to_i64(v).unwrap();
    2 * whole
}

/// `a * b` as a coordinate in half units.
fn doubled_product(a: usize, b: usize) -> (r: i64)
    requires
        a * b <= MAX_WORLD_EXTENT,
    ensures
        r == 2 * (a * b),
{
    if a == 0 || b == 0 {
        assert(a * b == 0) by (nonlinear_arith)
            requires
                a == 0 || b == 0,
        ;
        return 0;
    }
    assert(a <= a * b && b <= a * b) by (nonlinear_arith)
        requires
            a >= 1,
            b >= 1,
    ;
    let a: i64 = usize_to_i64(a).unwrap();
    let b: i64 = usize_to_i64(b).unwrap();
    assert(0 <= a * b <= 0x7fff_ffff);
    2 * (a * b)
}

impl ChunkSize {
    pub fn new(width: usize, height: usize) -> (r: Self)
        ensures
            r.width == width,
            r.height == height,
    {
        Self { width, height }
    }

    /// Both dimensions are positive.
    pub open spec fn wf(self) -> bool {
        self.width > 0 && self.height > 0
    }

    /// The world extent of a chunk of this size is positive and at most
    /// [`MAX_WORLD_EXTENT`] along each axis.
    pub open spec fn spec_fits_world(self, cell_size: CellSize) -> bool {
        &&& 0 < self.width * cell_size.width <= MAX_WORLD_EXTENT
        &&& 0 < self.height * cell_size.height <= MAX_WORLD_EXTENT
    }

    /// Decides [`ChunkSize::spec_fits_world`].
    #[verifier::when_used_as_spec(spec_fits_world)]
    pub fn fits_world(self, cell_size: CellSize) -> (b: bool)
        ensures
            b == self.spec_fits_world(cell_size),
    {
        extent_fits(self.width, cell_size.width) && extent_fits(self.height, cell_size.height)
    }

    /// The offset from a corner of the chunk to its centre, in cells: half the size.
    pub fn center_offset(&self) -> (r: Vec2)
        requires
            2 * self.width <= i64::MAX,
            2 * self.height <= i64::MAX,
        ensures
            r.hx == self.width,
            r.hy == self.height,
    {
        let whole = self.as_vec2();
        Vec2 { hx: whole.hx / 2, hy: whole.hy / 2 }
    }

    /// The size as a vector of whole numbers of cells.
    pub fn as_vec2(&self) -> (r: Vec2)
        requires
            2 * self.width <= i64::MAX,
            2 * self.height <= i64::MAX,
        ensures
            r.hx == 2 * self.width,
            r.hy == 2 * self.height,
    {
        Vec2 { hx: doubled(self.width), hy: doubled(self.height) }
    }

    /// The world size of a chunk: its size in cells times the size of a cell,
    /// axis by axis.
    pub fn world_size(&self, cell_size: CellSize) -> (r: Vec2)
        requires
            self.width * cell_size.width <= MAX_WORLD_EXTENT,
            self.height * cell_size.height <= MAX_WORLD_EXTENT,
        ensures
            r.hx == 2 * (self.width * cell_size.width),
            r.hy == 2 * (self.height * cell_size.height),
    {
        Vec2 {
            hx: doubled_product(self.width, cell_size.width),
            hy: doubled_product(self.height, cell_size.height),
        }
    }
}

/// Whether `0 < cells * cell <= MAX_WORLD_EXTENT`.
fn extent_fits(cells: usize, cell: usize) -> (b: bool)
    ensures
        b == (0 < cells * cell <= MAX_WORLD_EXTENT),
{
    if cells == 0 || cell == 0 {
        assert(cells * cell == 0) by (nonlinear_arith)
            requires
                cells == 0 || cell == 0,
        ;
        return false;
    }
    if cells > MAX_WORLD_EXTENT || cell > MAX_WORLD_EXTENT {
        assert(cells * cell > MAX_WORLD_EXTENT) by (nonlinear_arith)
            requires
                cells >= 1,
                cell >= 1,
                cells > MAX_WORLD_EXTENT || cell > MAX_WORLD_EXTENT,
        ;
        return false;
    }
    assert(0 < cells * cell <= 0x7fff_ffff * 0x7fff_ffff) by (nonlinear_arith)
        requires
            1 <= cells <= 0x7fff_ffff,
            1 <= cell <= 0x7fff_ffff,
    ;
    (cells as u64) * (cell as u64) <= MAX_WORLD_EXTENT as u64
}

impl CellSize {
    pub fn new(width: usize, height: usize) -> (r: Self)
        ensures
            r.width == width,
            r.height == height,
    {
        Self { width, height }
    }

    /// Both dimensions are positive.
    pub open spec fn wf(self) -> bool {
        self.width > 0 && self.height > 0
    }

    /// The size as a vector of whole world units.
    pub fn as_vec2(&self) -> (r: Vec2)
        requires
            2 * self.width <= i64::MAX,
            2 * self.height <= i64::MAX,
        ensures
            r.hx == 2 * self.width,
            r.hy == 2 * self.height,
    {
        Vec2 { hx: doubled(self.width), hy: doubled(self.height) }
    }
}

impl From<(usize, usize)> for ChunkSize {
    fn from(t: (usize, usize)) -> (r: Self) {
        Self { width: usize_to_usize(t.0).unwrap(), height: usize_to_usize(t.1).unwrap() }
    }
}

impl vstd::std_specs::convert::FromSpecImpl<(usize, usize)> for ChunkSize {
    open spec fn obeys_from_spec() -> bool {
        true
    }

    open spec fn from_spec(t: (usize, usize)) -> Self {
        ChunkSize { width: t.0, height: t.1 }
    }
}

impl From<[usize; 2]> for ChunkSize {
    fn from(a: [usize; 2]) -> (r: Self) {
        Self { width: a[0], height: a[1] }
    }
}

impl vstd::std_specs::convert::FromSpecImpl<[usize; 2]> for ChunkSize {
    open spec fn obeys_from_spec() -> bool {
        true
    }

    open spec fn from_spec(a: [usize; 2]) -> Self {
        ChunkSize { width: a@[0], height: a@[1] }
    }
}

impl From<&[usize; 2]> for ChunkSize {
    fn from(a: &[usize; 2]) -> (r: Self) {
        Self { width: a[0], height: a[1] }
    }
}

impl vstd::std_specs::convert::FromSpecImpl<&[usize; 2]> for ChunkSize {
    open spec fn obeys_from_spec() -> bool {
        true
    }

    open spec fn from_spec(a: &[usize; 2]) -> Self {
        ChunkSize { width: a@[0], height: a@[1] }
    }
}

impl From<(usize, usize)> for CellSize {
    fn from(t: (usize, usize)) -> (r: Self) {
        Self { width: t.0, height: t.1 }
    }
}

impl vstd::std_specs::convert::FromSpecImpl<(usize, usize)> for CellSize {
    open spec fn obeys_from_spec() -> bool {
        true
    }

    open spec fn from_spec(t: (usize, usize)) -> Self {
        CellSize { width: t.0, height: t.1 }
    }
}

impl From<[usize; 2]> for CellSize {
    fn from(a: [usize; 2]) -> (r: Self) {
        Self { width: a[0], height: a[1] }
    }
}

impl vstd::std_specs::convert::FromSpecImpl<[usize; 2]> for CellSize {
    open spec fn obeys_from_spec() -> bool {
        true
    }

    open spec fn from_spec(a: [usize; 2]) -> Self {
        CellSize { width: a@[0], height: a@[1] }
    }
}

impl From<&[usize; 2]> for CellSize {
    fn from(a: &[usize; 2]) -> (r: Self) {
        Self { width: a[0], height: a[1] }
    }
}

impl vstd::std_specs::convert::FromSpecImpl<&[usize; 2]> for CellSize {
    open spec fn obeys_from_spec() -> bool {
        true
    }

    open spec fn from_spec(a: &[usize; 2]) -> Self {
        CellSize { width: a@[0], height: a@[1] }
    }
}

} // verus!
