//! The data of the terrain: sizes, positions, the samples of a chunk and how
//! they are taken from the scalar field, meshes and cached chunks.

use crate::vec2::Vec2;
use vstd::prelude::*;

verus! {

/// The largest world extent, in whole units, that one chunk may span along an axis.
pub const MAX_CHUNK_EXTENT: usize = 0x7fff_ffff;

/// The largest cell dimension, in whole units, whose corners are exact in half units.
pub const MAX_CELL_DIMENSION: usize = 0x7fff_ffff;

/// The number of cells in a chunk along each axis.
#[derive(Debug, Copy, Clone, Ord, PartialOrd, Eq, PartialEq, Structural)]
pub struct ChunkSize(pub usize, pub usize);

/// The world size of one cell along each axis, in whole units.
#[derive(Debug, Copy, Clone, Ord, PartialOrd, Eq, PartialEq, Structural)]
pub struct CellSize(pub usize, pub usize);

/// The address of a chunk in the unbounded chunk grid.
#[derive(Debug, Copy, Clone, Ord, PartialOrd, Eq, PartialEq, Structural, Hash)]
pub struct ChunkPosition(pub i32, pub i32);

/// The address of a cell, counted in cells along each axis.
#[derive(Debug, Copy, Clone, Ord, PartialOrd, Eq, PartialEq, Structural, Hash)]
pub struct CellPosition(pub i32, pub i32);

impl ChunkSize {
    /// Both dimensions are positive.
    pub open spec fn wf(self) -> bool {
        self.0 > 0 && self.1 > 0
    }

    /// The number of corner samples of a chunk of this size.
    pub open spec fn spec_sample_count(self) -> int {
        (self.0 + 1) * (self.1 + 1)
    }
}

impl CellSize {
    /// Both dimensions are positive.
    pub open spec fn wf(self) -> bool {
        self.0 > 0 && self.1 > 0
    }
}

impl Default for ChunkSize {
    fn default() -> (r: Self)
        ensures
            r == ChunkSize(64, 64),
    {
        ChunkSize(64, 64)
    }
}

impl Default for CellSize {
    fn default() -> (r: Self)
        ensures
            r == CellSize(8, 8),
    {
        CellSize(8, 8)
    }
}

/// The world width of a chunk, in whole units.
pub open spec fn extent_x(size: ChunkSize, cell_size: CellSize) -> int {
    size.0 * cell_size.0
}

/// The world height of a chunk, in whole units.
pub open spec fn extent_y(size: ChunkSize, cell_size: CellSize) -> int {
    size.1 * cell_size.1
}

/// The sizes are positive and a chunk spans at most [`MAX_CHUNK_EXTENT`] world
/// units along each axis, so that every chunk corner is exact in half units.
pub open spec fn spec_fits_world(size: ChunkSize, cell_size: CellSize) -> bool {
    &&& size.wf()
    &&& cell_size.wf()
    &&& extent_x(size, cell_size) <= MAX_CHUNK_EXTENT
    &&& extent_y(size, cell_size) <= MAX_CHUNK_EXTENT
}

/// Multiplies two sizes when the product is positive and at most `MAX_CHUNK_EXTENT`.
fn checked_extent(cells: usize, cell: usize) -> (r: Option<i64>)
    ensures
        r is Some <==> 0 < cells * cell <= MAX_CHUNK_EXTENT,
        r is Some ==> r->0 == cells * cell,
{
    if cells == 0 || cell == 0 {
        assert(cells * cell == 0) by (nonlinear_arith)
            requires
                cells == 0 || cell == 0,
        ;
        return None;
    }
    if cells > MAX_CHUNK_EXTENT || cell > MAX_CHUNK_EXTENT {
        assert(cells * cell > MAX_CHUNK_EXTENT) by (nonlinear_arith)
            requires
                cells >= 1,
                cell >= 1,
                cells > MAX_CHUNK_EXTENT || cell > MAX_CHUNK_EXTENT,
        ;
        return None;
    }
    assert(cells * cell <= 0x7fff_ffff * 0x7fff_ffff) by (nonlinear_arith)
        requires
            cells <= 0x7fff_ffff,
            cell <= 0x7fff_ffff,
    ;
    assert(cells * cell > 0) by (nonlinear_arith)
        requires
            cells >= 1,
            cell >= 1,
    ;
    let product: i64 = (cells as i64) * (cell as i64);
    if product <= MAX_CHUNK_EXTENT as i64 {
        Some(product)
    } else {
        None
    }
}

/// Decides [`spec_fits_world`].
#[verifier::when_used_as_spec(spec_fits_world)]
pub fn fits_world(size: ChunkSize, cell_size: CellSize) -> (b: bool)
    ensures
        b == spec_fits_world(size, cell_size),
{
    let ex = checked_extent(size.0, cell_size.0);
    let ey = checked_extent(size.1, cell_size.1);
    proof {
        if size.0 == 0 || cell_size.0 == 0 {
            assert(size.0 * cell_size.0 == 0) by (nonlinear_arith)
                requires
                    size.0 == 0 || cell_size.0 == 0,
            ;
        }
        if size.1 == 0 || cell_size.1 == 0 {
            assert(size.1 * cell_size.1 == 0) by (nonlinear_arith)
                requires
                    size.1 == 0 || cell_size.1 == 0,
            ;
        }
        if size.wf() && cell_size.wf() {
            assert(size.0 * cell_size.0 > 0 && size.1 * cell_size.1 > 0) by (nonlinear_arith)
                requires
                    size.0 > 0,
                    size.1 > 0,
                    cell_size.0 > 0,
                    cell_size.1 > 0,
            ;
        }
    }
    ex.is_some() && ey.is_some()
}

/// How many sample units make up the value `1.0` of the scalar field.
pub const SAMPLE_UNIT: i32 = 1_000_000;

/// The corner samples of one chunk, row by row from the top-left corner.
///
/// A chunk of `w` by `h` cells has `(w + 1) * (h + 1)` corners. Samples are
/// fixed-point numbers in units of `1 / SAMPLE_UNIT`.
#[derive(Debug, Clone, PartialOrd, PartialEq)]
pub struct ChunkData(pub Vec<i32>);

/// The place of corner `(x, y)` in the row-major sample buffer.
pub open spec fn spec_sample_index(size: ChunkSize, x: int, y: int) -> int {
    y * (size.0 + 1) + x
}

/// Every corner of a chunk has a place below the sample count, and no
/// intermediate value of the index computation exceeds that place.
pub proof fn lemma_sample_index_in_range(size: ChunkSize, x: int, y: int)
    requires
        0 <= x <= size.0,
        0 <= y <= size.1,
    ensures
        0 <= spec_sample_index(size, x, y) < size.spec_sample_count(),
        size.0 + 1 <= size.spec_sample_count(),
        0 <= y * (size.0 + 1) <= spec_sample_index(size, x, y),
{
    let w1 = size.0 + 1;
    assert(0 <= y * w1 <= size.1 * w1) by (nonlinear_arith)
        requires
            0 <= y <= size.1,
            w1 > 0,
    ;
    assert((size.0 + 1) * (size.1 + 1) == size.1 * w1 + w1) by (nonlinear_arith)
        requires
            w1 == size.0 + 1,
    ;
    assert(0 <= size.1 * w1) by (nonlinear_arith)
        requires
            w1 > 0,
            size.1 >= 0,
    ;
}

impl View for ChunkData {
    type V = Seq<i32>;

    open spec fn view(&self) -> Seq<i32> {
        self.0@
    }
}

impl ChunkData {
    /// The buffer holds exactly one sample per corner of a chunk of `size`.
    pub open spec fn wf(&self, size: ChunkSize) -> bool {
        self@.len() == size.spec_sample_count()
    }

    /// The sample at corner `(x, y)`.
    pub open spec fn spec_get_at(&self, size: ChunkSize, x: int, y: int) -> i32 {
        self@[spec_sample_index(size, x, y)]
    }

    /// A buffer for a chunk of `size` with every sample zero.
    pub fn new(size: ChunkSize) -> (r: Self)
        requires
            size.spec_sample_count() <= usize::MAX,
        ensures
            r.wf(size),
            forall|i: int| 0 <= i < r@.len() ==> r@[i] == 0,
    {
        assert(size.0 + 1 <= (size.0 + 1) * (size.1 + 1)) by (nonlinear_arith);
        assert(size.1 + 1 <= (size.0 + 1) * (size.1 + 1)) by (nonlinear_arith);
        let n: usize = (size.0 + 1) * (size.1 + 1);
        let mut v: Vec<i32> = Vec::with_capacity(n);
        let mut i: usize = 0;
        while i < n
            invariant
                i <= n,
                v@.len() == i,
                forall|j: int| 0 <= j < i ==> v@[j] == 0,
            decreases n - i,
        {
            v.push(0);
            i = i + 1;
        }
        ChunkData(v)
    }

    /// All samples, row by row.
    pub fn as_slice(&self) -> (r: &[i32])
        ensures
            r@ == self@,
    {
        self.0.as_slice()
    }

    /// Reads the sample at corner `(x, y)`.
    pub fn get_at(&self, size: ChunkSize, x: usize, y: usize) -> (r: i32)
        requires
            self.wf(size),
            x <= size.0,
            y <= size.1,
        ensures
            r == self.spec_get_at(size, x as int, y as int),
    {
        proof {
            lemma_sample_index_in_range(size, x as int, y as int);
            assert(self.0.len() <= usize::MAX);
        }
        self.0[y * (size.0 + 1) + x]
    }

    /// Writes `v` at corner `(x, y)` and leaves every other sample as it was.
    pub fn set_at(&mut self, size: ChunkSize, x: usize, y: usize, v: i32)
        requires
            old(self).wf(size),
            x <= size.0,
            y <= size.1,
        ensures
            final(self)@ == old(self)@.update(spec_sample_index(size, x as int, y as int), v),
            final(self).wf(size),
    {
        proof {
            lemma_sample_index_in_range(size, x as int, y as int);
            assert(self.0.len() <= usize::MAX);
        }
        let idx: usize = y * (size.0 + 1) + x;
        self.0.set(idx, v);
    }
}

/// Two corners of a chunk that share a place in the sample buffer are the same corner.
pub proof fn lemma_sample_index_injective(size: ChunkSize, x1: int, y1: int, x2: int, y2: int)
    requires
        0 <= x1 <= size.0,
        0 <= x2 <= size.0,
        0 <= y1,
        0 <= y2,
        spec_sample_index(size, x1, y1) == spec_sample_index(size, x2, y2),
    ensures
        x1 == x2,
        y1 == y2,
{
    let w1 = size.0 + 1;
    if y1 < y2 {
        assert(y2 * w1 >= y1 * w1 + w1) by (nonlinear_arith)
            requires
                y1 + 1 <= y2,
                w1 > 0,
        ;
    } else if y2 < y1 {
        assert(y1 * w1 >= y2 * w1 + w1) by (nonlinear_arith)
            requires
                y2 + 1 <= y1,
                w1 > 0,
        ;
    }
}

impl ChunkPosition {
    /// The world x coordinate, in whole units, of corner column `cx` of this chunk.
    pub open spec fn spec_sample_x(self, size: ChunkSize, cell_size: CellSize, cx: int) -> int {
        self.0 * extent_x(size, cell_size) + cx * cell_size.0
    }

    /// The world y coordinate, in whole units, of corner row `cy` of this chunk.
    /// Row 0 is the top edge of the chunk and rows run downwards.
    pub open spec fn spec_sample_y(self, size: ChunkSize, cell_size: CellSize, cy: int) -> int {
        (self.1 + 1) * extent_y(size, cell_size) - cy * cell_size.1
    }

    /// The world coordinates of all four corners of this chunk are whole
    /// numbers of units within the range of `i32`.
    pub open spec fn spec_samples_fit(self, size: ChunkSize, cell_size: CellSize) -> bool {
        &&& spec_fits_world(size, cell_size)
        &&& i32::MIN <= self.0 * extent_x(size, cell_size)
        &&& (self.0 + 1) * extent_x(size, cell_size) <= i32::MAX
        &&& i32::MIN <= self.1 * extent_y(size, cell_size)
        &&& (self.1 + 1) * extent_y(size, cell_size) <= i32::MAX
    }

    /// Decides [`ChunkPosition::spec_samples_fit`].
    #[verifier::when_used_as_spec(spec_samples_fit)]
    pub fn samples_fit(self, size: ChunkSize, cell_size: CellSize) -> (b: bool)
        ensures
            b == self.spec_samples_fit(size, cell_size),
    {
        let ex = checked_extent(size.0, cell_size.0);
        let ey = checked_extent(size.1, cell_size.1);
        if !fits_world(size, cell_size) {
            return false;
        }
        assert(size.0 * cell_size.0 > 0 && size.1 * cell_size.1 > 0) by (nonlinear_arith)
            requires
                size.wf(),
                cell_size.wf(),
        ;
        let ex: i64 = ex.unwrap();
        let ey: i64 = ey.unwrap();
        assert(-0x8000_0000 * 0x7fff_ffff <= self.0 * ex <= 0x7fff_ffff * 0x7fff_ffff
            && -0x8000_0000 * 0x7fff_ffff <= self.1 * ey <= 0x7fff_ffff * 0x7fff_ffff)
            by (nonlinear_arith)
            requires
                0 < ex <= 0x7fff_ffff,
                0 < ey <= 0x7fff_ffff,
                -0x8000_0000 <= self.0 <= 0x7fff_ffff,
                -0x8000_0000 <= self.1 <= 0x7fff_ffff,
        ;
        let left: i64 = (self.0 as i64) * ex;
        let bottom: i64 = (self.1 as i64) * ey;
        assert((self.0 + 1) * ex == left + ex && (self.1 + 1) * ey == bottom + ey)
            by (nonlinear_arith)
            requires
                left == self.0 * ex,
                bottom == self.1 * ey,
        ;
        i32::MIN as i64 <= left && left + ex <= i32::MAX as i64 && i32::MIN as i64 <= bottom
            && bottom + ey <= i32::MAX as i64
    }
}

/// Every corner of a chunk whose four corners fit has coordinates in `i32`.
pub proof fn lemma_sample_coordinates_fit(
    pos: ChunkPosition,
    size: ChunkSize,
    cell_size: CellSize,
    cx: int,
    cy: int,
)
    requires
        pos.spec_samples_fit(size, cell_size),
        0 <= cx <= size.0,
        0 <= cy <= size.1,
    ensures
        i32::MIN <= pos.spec_sample_x(size, cell_size, cx) <= i32::MAX,
        i32::MIN <= pos.spec_sample_y(size, cell_size, cy) <= i32::MAX,
        0 <= cx * cell_size.0 <= extent_x(size, cell_size),
        0 <= cy * cell_size.1 <= extent_y(size, cell_size),
{
    let (w, h, cw, ch) = (size.0 as int, size.1 as int, cell_size.0 as int, cell_size.1 as int);
    assert(0 <= cx * cw <= w * cw) by (nonlinear_arith)
        requires
            0 <= cx <= w,
            0 < cw,
    ;
    assert(0 <= cy * ch <= h * ch) by (nonlinear_arith)
        requires
            0 <= cy <= h,
            0 < ch,
    ;
    assert((pos.0 + 1) * (w * cw) == pos.0 * (w * cw) + w * cw) by (nonlinear_arith);
    assert((pos.1 + 1) * (h * ch) == pos.1 * (h * ch) + h * ch) by (nonlinear_arith);
}

/// Fills `data` with one sample per corner of the chunk at `pos`.
///
/// Corner `(cx, cy)` lies `cx` cells to the right of and `cy` cells below the
/// chunk's top-left world corner; `f` is called with its world coordinates in
/// whole units and its result is stored at `(cx, cy)`. Corners are visited
/// column by column, each column from top to bottom.
pub fn generate_chunk_data_with<F>(
    data: &mut ChunkData,
    pos: ChunkPosition,
    size: ChunkSize,
    cell_size: CellSize,
    f: F,
) where F: Fn(i32, i32) -> i32
    requires
        old(data).wf(size),
        pos.spec_samples_fit(size, cell_size),
        forall|cx: int, cy: int|
            0 <= cx <= size.0 && 0 <= cy <= size.1 ==> #[trigger] f.requires(
                (
                    pos.spec_sample_x(size, cell_size, cx) as i32,
                    pos.spec_sample_y(size, cell_size, cy) as i32,
                ),
            ),
    ensures
        final(data).wf(size),
        spec_is_generated(final(data)@, pos, size, cell_size, f),
{
    let ChunkPosition(px, py) = pos;
    let w: i64 = size.0 as i64;
    let h: i64 = size.1 as i64;
    let cw: i64 = cell_size.0 as i64;
    let ch: i64 = cell_size.1 as i64;
    proof {
        lemma_sample_coordinates_fit(pos, size, cell_size, 0, 0);
        lemma_sample_coordinates_fit(pos, size, cell_size, size.0 as int, size.1 as int);
        assert(size.0 <= size.0 * cell_size.0 && size.1 <= size.1 * cell_size.1)
            by (nonlinear_arith)
            requires
                size.wf(),
                cell_size.wf(),
        ;
        assert(cell_size.0 <= size.0 * cell_size.0 && cell_size.1 <= size.1 * cell_size.1)
            by (nonlinear_arith)
            requires
                size.wf(),
                cell_size.wf(),
        ;
    }
    let left: i64 = (px as i64) * (w * cw);
    let top: i64 = (py as i64 + 1) * (h * ch);

    let mut x: i64 = 0;
    while x < w + 1
        invariant
            0 <= x <= w + 1,
            w <= MAX_CHUNK_EXTENT,
            h <= MAX_CHUNK_EXTENT,
            w == size.0,
            h == size.1,
            cw == cell_size.0,
            ch == cell_size.1,
            pos == ChunkPosition(px, py),
            left == px * extent_x(size, cell_size),
            top == (py + 1) * extent_y(size, cell_size),
            data.wf(size),
            pos.spec_samples_fit(size, cell_size),
            forall|cx: int, cy: int|
                0 <= cx <= size.0 && 0 <= cy <= size.1 ==> #[trigger] f.requires(
                    (
                        pos.spec_sample_x(size, cell_size, cx) as i32,
                        pos.spec_sample_y(size, cell_size, cy) as i32,
                    ),
                ),
            forall|cx: int, cy: int|
                0 <= cx < x && 0 <= cy <= size.1 ==> spec_sample_of(
                    data@,
                    pos,
                    size,
                    cell_size,
                    f,
                    cx,
                    cy,
                ),
        decreases w + 1 - x,
    {
        let mut y: i64 = 0;
        while y < h + 1
            invariant
                0 <= x <= w,
                0 <= y <= h + 1,
                w <= MAX_CHUNK_EXTENT,
                h <= MAX_CHUNK_EXTENT,
                w == size.0,
                h == size.1,
                cw == cell_size.0,
                ch == cell_size.1,
                pos == ChunkPosition(px, py),
                left == px * extent_x(size, cell_size),
                top == (py + 1) * extent_y(size, cell_size),
                data.wf(size),
                pos.spec_samples_fit(size, cell_size),
                forall|cx: int, cy: int|
                    0 <= cx <= size.0 && 0 <= cy <= size.1 ==> #[trigger] f.requires(
                        (
                            pos.spec_sample_x(size, cell_size, cx) as i32,
                            pos.spec_sample_y(size, cell_size, cy) as i32,
                        ),
                    ),
                forall|cx: int, cy: int|
                    0 <= cx <= size.0 && 0 <= cy <= size.1 && (cx < x || (cx == x && cy < y))
                        ==> spec_sample_of(data@, pos, size, cell_size, f, cx, cy),
            decreases h + 1 - y,
        {
            proof {
                lemma_sample_coordinates_fit(pos, size, cell_size, x as int, y as int);
            }
            let wx: i32 = (left + x * cw) as i32;
            let wy: i32 = (top - y * ch) as i32;
            let sample = f(wx, wy);
            let ghost prev = data@;
            data.set_at(size, x as usize, y as usize, sample);
            proof {
                assert forall|cx: int, cy: int|
                    0 <= cx <= size.0 && 0 <= cy <= size.1 && (cx < x || (cx == x && cy < y
                        + 1)) implies spec_sample_of(data@, pos, size, cell_size, f, cx, cy) by {
                    let here = spec_sample_index(size, x as int, y as int);
                    let there = spec_sample_index(size, cx, cy);
                    lemma_sample_index_in_range(size, x as int, y as int);
                    lemma_sample_index_in_range(size, cx, cy);
                    if cx == x && cy == y {
                        assert(wx == pos.spec_sample_x(size, cell_size, cx));
                        assert(wy == pos.spec_sample_y(size, cell_size, cy));
                        assert(data@[there] == sample);
                    } else {
                        if there == here {
                            lemma_sample_index_injective(size, cx, cy, x as int, y as int);
                        }
                        assert(spec_sample_of(prev, pos, size, cell_size, f, cx, cy));
                        assert(data@[there] == prev[there]);
                    }
                }
            }
            y = y + 1;
        }
        x = x + 1;
    }
}

/// The sample stored for corner `(cx, cy)` is a value that `f` returns for the
/// corner's world coordinates.
pub open spec fn spec_sample_of<F: Fn(i32, i32) -> i32>(
    data: Seq<i32>,
    pos: ChunkPosition,
    size: ChunkSize,
    cell_size: CellSize,
    f: F,
    cx: int,
    cy: int,
) -> bool {
    f.ensures(
        (
            pos.spec_sample_x(size, cell_size, cx) as i32,
            pos.spec_sample_y(size, cell_size, cy) as i32,
        ),
        data[spec_sample_index(size, cx, cy)],
    )
}

/// `data` holds, for every corner of the chunk at `pos`, a value that `f`
/// returns for the corner's world coordinates.
pub open spec fn spec_is_generated<F: Fn(i32, i32) -> i32>(
    data: Seq<i32>,
    pos: ChunkPosition,
    size: ChunkSize,
    cell_size: CellSize,
    f: F,
) -> bool {
    forall|cx: int, cy: int|
        0 <= cx <= size.0 && 0 <= cy <= size.1 ==> #[trigger] spec_sample_of(
            data,
            pos,
            size,
            cell_size,
            f,
            cx,
            cy,
        )
}

/// Every place in the sample buffer of a chunk is the place of one of its corners.
pub proof fn lemma_sample_index_onto(size: ChunkSize, i: int) -> (corner: (int, int))
    requires
        0 <= i < size.spec_sample_count(),
    ensures
        0 <= corner.0 <= size.0,
        0 <= corner.1 <= size.1,
        spec_sample_index(size, corner.0, corner.1) == i,
{
    let w1 = size.0 + 1;
    let x = i % w1;
    let y = i / w1;
    vstd::arithmetic::div_mod::lemma_fundamental_div_mod(i, w1);
    assert(y * w1 == w1 * y) by (nonlinear_arith);
    assert(0 <= y) by (nonlinear_arith)
        requires
            0 <= i,
            w1 > 0,
            i == w1 * y + x,
            0 <= x < w1,
    ;
    if y > size.1 {
        assert(y * w1 >= (size.1 + 1) * w1) by (nonlinear_arith)
            requires
                y >= size.1 + 1,
                w1 > 0,
        ;
        assert((size.0 + 1) * (size.1 + 1) == (size.1 + 1) * w1) by (nonlinear_arith)
            requires
                w1 == size.0 + 1,
        ;
    }
    (x, y)
}

/// A sampler that returns one value for each pair of coordinates fills the
/// sample buffer of a chunk in one way only.
pub proof fn lemma_samples_deterministic<F: Fn(i32, i32) -> i32>(
    f: F,
    pos: ChunkPosition,
    size: ChunkSize,
    cell_size: CellSize,
    a: Seq<i32>,
    b: Seq<i32>,
)
    requires
        forall|x: i32, y: i32, u: i32, v: i32|
            #[trigger] f.ensures((x, y), u) && #[trigger] f.ensures((x, y), v) ==> u == v,
        a.len() == size.spec_sample_count(),
        b.len() == size.spec_sample_count(),
        spec_is_generated(a, pos, size, cell_size, f),
        spec_is_generated(b, pos, size, cell_size, f),
    ensures
        a == b,
{
    assert forall|i: int| 0 <= i < a.len() implies a[i] == b[i] by {
        let corner = lemma_sample_index_onto(size, i);
        assert(spec_sample_of(a, pos, size, cell_size, f, corner.0, corner.1));
        assert(spec_sample_of(b, pos, size, cell_size, f, corner.0, corner.1));
    }
    assert(a =~= b);
}

/// `v` limited to the range of `i32`.
pub open spec fn spec_clamp_i32(v: int) -> i32 {
    if v < i32::MIN {
        i32::MIN
    } else if v > i32::MAX {
        i32::MAX
    } else {
        v as i32
    }
}

/// The number of the grid line at or below `coord`, for grid lines `extent`
/// world units apart with line 0 through the origin. `coord` counts half units.
pub open spec fn spec_floor_line(coord: int, extent: int) -> int {
    coord / (2 * extent)
}

/// Computes [`spec_floor_line`] for a spacing of `cells * cell` units,
/// limited to the range of `i32`.
fn floor_line(coord: i64, cells: usize, cell: usize) -> (r: i32)
    requires
        cells > 0,
        cell > 0,
    ensures
        r == spec_clamp_i32(spec_floor_line(coord as int, cells * cell)),
{
    assert(0 < cells * cell <= 0xffff_ffff_ffff_ffff * 0xffff_ffff_ffff_ffff) by (nonlinear_arith)
        requires
            0 < cells <= 0xffff_ffff_ffff_ffff,
            0 < cell <= 0xffff_ffff_ffff_ffff,
    ;
    let extent: u128 = (cells as u128) * (cell as u128);
    if extent > 0x7fff_ffff_ffff_ffff {
        // The spacing exceeds every coordinate: only lines 0 and -1 are in reach.
        if coord >= 0 {
            proof {
                vstd::arithmetic::div_mod::lemma_fundamental_div_mod_converse(
                    coord as int,
                    2 * extent as int,
                    0,
                    coord as int,
                );
            }
            0
        } else {
            proof {
                vstd::arithmetic::div_mod::lemma_fundamental_div_mod_converse(
                    coord as int,
                    2 * extent as int,
                    -1,
                    coord + 2 * extent,
                );
            }
            -1
        }
    } else {
        let d: i128 = 2 * (extent as i128);
        let c: i128 = coord as i128;
        let line: i128 = if c >= 0 {
            c / d
        } else {
            let up: i128 = (-c + d - 1) / d;
            proof {
                let q = c as int / d as int;
                let r = c as int % d as int;
                vstd::arithmetic::div_mod::lemma_fundamental_div_mod(c as int, d as int);
                assert(-c + d - 1 == (-q) * d + (d - 1 - r)) by (nonlinear_arith)
                    requires
                        c == d * q + r,
                ;
                vstd::arithmetic::div_mod::lemma_fundamental_div_mod_converse(
                    -c + d - 1,
                    d as int,
                    -q,
                    d - 1 - r,
                );
            }
            -up
        };
        if line < -0x8000_0000 {
            i32::MIN
        } else if line > 0x7fff_ffff {
            i32::MAX
        } else {
            line as i32
        }
    }
}

impl ChunkPosition {
    /// The chunk whose world rectangle holds the point `(x / 2, y / 2)`.
    ///
    /// `x` and `y` count half world units. Chunk `(0, 0)` has its bottom-left
    /// corner at the origin; a point on a shared boundary belongs to the chunk
    /// to its right or above. A chunk number beyond the range of `i32` is
    /// limited to that range.
    pub fn from_global_position(x: i64, y: i64, size: ChunkSize, cell_size: CellSize) -> (r: Self)
        requires
            size.wf(),
            cell_size.wf(),
        ensures
            r.0 == spec_clamp_i32(spec_floor_line(x as int, extent_x(size, cell_size))),
            r.1 == spec_clamp_i32(spec_floor_line(y as int, extent_y(size, cell_size))),
    {
        ChunkPosition(floor_line(x, size.0, cell_size.0), floor_line(y, size.1, cell_size.1))
    }

    /// The world position of the chunk's top-left corner.
    pub open spec fn spec_global_corner(self, size: ChunkSize, cell_size: CellSize) -> Vec2 {
        Vec2 {
            hx: (2 * (self.0 * extent_x(size, cell_size))) as i64,
            hy: (2 * ((self.1 + 1) * extent_y(size, cell_size))) as i64,
        }
    }

    /// The world position of the chunk's centre.
    pub open spec fn spec_global_center(self, size: ChunkSize, cell_size: CellSize) -> Vec2 {
        Vec2 {
            hx: (2 * (self.0 * extent_x(size, cell_size)) + extent_x(size, cell_size)) as i64,
            hy: (2 * ((self.1 + 1) * extent_y(size, cell_size)) - extent_y(size, cell_size)) as i64,
        }
    }

    /// The world position of the chunk's centre: half a chunk to the right of
    /// and below its top-left corner.
    pub fn get_global_center(&self, size: ChunkSize, cell_size: CellSize) -> (r: Vec2)
        requires
            spec_fits_world(size, cell_size),
        ensures
            r == self.spec_global_center(size, cell_size),
            r.hx == 2 * (self.0 * extent_x(size, cell_size)) + extent_x(size, cell_size),
            r.hy == 2 * ((self.1 + 1) * extent_y(size, cell_size)) - extent_y(size, cell_size),
    {
        let ex = checked_extent(size.0, cell_size.0);
        let ey = checked_extent(size.1, cell_size.1);
        assert(size.0 * cell_size.0 > 0 && size.1 * cell_size.1 > 0) by (nonlinear_arith)
            requires
                size.wf(),
                cell_size.wf(),
        ;
        let ex: i64 = ex.unwrap();
        let ey: i64 = ey.unwrap();

        let tl = self.get_global_corner(size, cell_size);
        assert(-0x8000_0000 * 0x7fff_ffff <= self.0 * ex <= 0x7fff_ffff * 0x7fff_ffff
            && -0x8000_0000 * 0x7fff_ffff <= (self.1 + 1) * ey <= 0x8000_0000 * 0x7fff_ffff)
            by (nonlinear_arith)
            requires
                0 < ex <= 0x7fff_ffff,
                0 < ey <= 0x7fff_ffff,
                -0x8000_0000 <= self.0 <= 0x7fff_ffff,
                -0x8000_0000 <= self.1 <= 0x7fff_ffff,
        ;

        let c_x = tl.hx + ex;
        let c_y = tl.hy - ey;

        Vec2 { hx: c_x, hy: c_y }
    }

    /// The world position of the chunk's top-left corner, where its mesh is
    /// placed: chunk rows extend downwards from it.
    pub fn get_global_corner(&self, size: ChunkSize, cell_size: CellSize) -> (r: Vec2)
        requires
            spec_fits_world(size, cell_size),
        ensures
            r == self.spec_global_corner(size, cell_size),
            r.hx == 2 * (self.0 * extent_x(size, cell_size)),
            r.hy == 2 * ((self.1 + 1) * extent_y(size, cell_size)),
    {
        let (x, y) = (self.0 as i64, self.1 as i64);
        let ex = checked_extent(size.0, cell_size.0);
        let ey = checked_extent(size.1, cell_size.1);
        assert(size.0 * cell_size.0 > 0 && size.1 * cell_size.1 > 0) by (nonlinear_arith)
            requires
                size.wf(),
                cell_size.wf(),
        ;
        let ex: i64 = ex.unwrap();
        let ey: i64 = ey.unwrap();
        assert(-0x8000_0000 * 0x7fff_ffff <= x * ex <= 0x7fff_ffff * 0x7fff_ffff
            && -0x8000_0000 * 0x7fff_ffff <= (y + 1) * ey <= 0x8000_0000 * 0x7fff_ffff)
            by (nonlinear_arith)
            requires
                0 < ex <= 0x7fff_ffff,
                0 < ey <= 0x7fff_ffff,
                -0x8000_0000 <= x <= 0x7fff_ffff,
                -0x8000_0000 <= y <= 0x7fff_ffff,
        ;
        let tl_x: i64 = 2 * (x * ex);
        let tl_y: i64 = 2 * ((y + 1) * ey);

        Vec2 { hx: tl_x, hy: tl_y }
    }
}

/// The centre of a chunk lies in that chunk.
pub proof fn lemma_global_center_round_trip(p: ChunkPosition, size: ChunkSize, cell_size: CellSize)
    requires
        spec_fits_world(size, cell_size),
    ensures
        spec_clamp_i32(
            spec_floor_line(
                p.spec_global_center(size, cell_size).hx as int,
                extent_x(size, cell_size),
            ),
        ) == p.0,
        spec_clamp_i32(
            spec_floor_line(
                p.spec_global_center(size, cell_size).hy as int,
                extent_y(size, cell_size),
            ),
        ) == p.1,
{
    let ex = extent_x(size, cell_size);
    let ey = extent_y(size, cell_size);
    assert(ex > 0 && ey > 0) by (nonlinear_arith)
        requires
            size.wf(),
            cell_size.wf(),
            ex == size.0 * cell_size.0,
            ey == size.1 * cell_size.1,
    ;
    assert(-0x8000_0000 * 0x7fff_ffff <= p.0 * ex <= 0x7fff_ffff * 0x7fff_ffff
        && -0x8000_0000 * 0x7fff_ffff <= (p.1 + 1) * ey <= 0x8000_0000 * 0x7fff_ffff)
        by (nonlinear_arith)
        requires
            0 < ex <= 0x7fff_ffff,
            0 < ey <= 0x7fff_ffff,
            -0x8000_0000 <= p.0 <= 0x7fff_ffff,
            -0x8000_0000 <= p.1 <= 0x7fff_ffff,
    ;
    let cx = 2 * (p.0 * ex) + ex;
    let cy = 2 * ((p.1 + 1) * ey) - ey;
    assert(cx == p.0 * (2 * ex) + ex) by (nonlinear_arith)
        requires
            cx == 2 * (p.0 * ex) + ex,
    ;
    assert(cy == p.1 * (2 * ey) + ey) by (nonlinear_arith)
        requires
            cy == 2 * ((p.1 + 1) * ey) - ey,
    ;
    vstd::arithmetic::div_mod::lemma_fundamental_div_mod_converse(cx, 2 * ex, p.0 as int, ex);
    vstd::arithmetic::div_mod::lemma_fundamental_div_mod_converse(cy, 2 * ey, p.1 as int, ey);
}

impl CellPosition {
    /// The world offset of this cell position from cell `(0, 0)`.
    pub fn to_world(&self, cell_size: CellSize) -> (r: Vec2)
        requires
            cell_size.0 <= MAX_CELL_DIMENSION,
            cell_size.1 <= MAX_CELL_DIMENSION,
        ensures
            r.hx == 2 * (self.0 * cell_size.0),
            r.hy == 2 * (self.1 * cell_size.1),
    {
        let cw: i64 = cell_size.0 as i64;
        let ch: i64 = cell_size.1 as i64;
        assert(-0x8000_0000 * 0x7fff_ffff <= self.0 * cw <= 0x7fff_ffff * 0x7fff_ffff
            && -0x8000_0000 * 0x7fff_ffff <= self.1 * ch <= 0x7fff_ffff * 0x7fff_ffff)
            by (nonlinear_arith)
            requires
                0 <= cw <= 0x7fff_ffff,
                0 <= ch <= 0x7fff_ffff,
                -0x8000_0000 <= self.0 <= 0x7fff_ffff,
                -0x8000_0000 <= self.1 <= 0x7fff_ffff,
        ;
        Vec2 { hx: 2 * ((self.0 as i64) * cw), hy: 2 * ((self.1 as i64) * ch) }
    }
}

impl std::ops::Add<CellPosition> for CellPosition {
    type Output = CellPosition;

    fn add(self, rhs: CellPosition) -> (r: CellPosition) {
        CellPosition(self.0 + rhs.0, self.1 + rhs.1)
    }
}

impl vstd::std_specs::ops::AddSpecImpl<CellPosition> for CellPosition {
    open spec fn obeys_add_spec() -> bool {
        true
    }

    open spec fn add_req(self, rhs: CellPosition) -> bool {
        &&& i32::MIN <= self.0 + rhs.0 <= i32::MAX
        &&& i32::MIN <= self.1 + rhs.1 <= i32::MAX
    }

    open spec fn add_spec(self, rhs: CellPosition) -> CellPosition {
        CellPosition((self.0 + rhs.0) as i32, (self.1 + rhs.1) as i32)
    }
}

impl std::ops::Add<&CellPosition> for CellPosition {
    type Output = CellPosition;

    fn add(self, rhs: &CellPosition) -> (r: CellPosition) {
        CellPosition(self.0 + rhs.0, self.1 + rhs.1)
    }
}

impl vstd::std_specs::ops::AddSpecImpl<&CellPosition> for CellPosition {
    open spec fn obeys_add_spec() -> bool {
        true
    }

    open spec fn add_req(self, rhs: &CellPosition) -> bool {
        &&& i32::MIN <= self.0 + rhs.0 <= i32::MAX
        &&& i32::MIN <= self.1 + rhs.1 <= i32::MAX
    }

    open spec fn add_spec(self, rhs: &CellPosition) -> CellPosition {
        CellPosition((self.0 + rhs.0) as i32, (self.1 + rhs.1) as i32)
    }
}

impl std::ops::Add<ChunkPosition> for ChunkPosition {
    type Output = ChunkPosition;

    fn add(self, rhs: ChunkPosition) -> (r: ChunkPosition) {
        ChunkPosition(self.0 + rhs.0, self.1 + rhs.1)
    }
}

impl vstd::std_specs::ops::AddSpecImpl<ChunkPosition> for ChunkPosition {
    open spec fn obeys_add_spec() -> bool {
        true
    }

    open spec fn add_req(self, rhs: ChunkPosition) -> bool {
        &&& i32::MIN <= self.0 + rhs.0 <= i32::MAX
        &&& i32::MIN <= self.1 + rhs.1 <= i32::MAX
    }

    open spec fn add_spec(self, rhs: ChunkPosition) -> ChunkPosition {
        ChunkPosition((self.0 + rhs.0) as i32, (self.1 + rhs.1) as i32)
    }
}

/// A token for the engine-side instance of a chunk. The collaborator that
/// instantiates chunks issues it; this library stores and returns it and never
/// looks inside.
#[derive(Debug, Copy, Clone, Ord, PartialOrd, Eq, PartialEq, Structural, Hash)]
pub struct InstanceHandle(pub u64);

/// The contour mesh of a chunk: vertices relative to the chunk's top-left
/// corner, and the indices of the triangle list over them.
#[derive(Debug, Clone, PartialEq)]
pub struct ChunkMeshData(pub Vec<Vec2>, pub Vec<u32>);

impl Default for ChunkMeshData {
    fn default() -> (r: Self)
        ensures
            r.0@ == Seq::<Vec2>::empty(),
            r.1@ == Seq::<u32>::empty(),
    {
        ChunkMeshData(Vec::new(), Vec::new())
    }
}

/// Where a chunk position stands in its life cycle.
#[derive(Debug, Copy, Clone, Eq, PartialEq, Structural)]
pub enum ChunkState {
    /// Nothing is known of the position: no mesh has been computed.
    Unknown,
    /// The mesh is cached and no instance exists.
    DataReady,
    /// The mesh is cached and the collaborator holds a live instance.
    Instantiated,
    /// The instance has been handed back for release, and the release has not
    /// been confirmed yet.
    PendingTeardown,
}

/// A chunk whose mesh has been computed.
#[derive(Debug, PartialEq)]
pub struct Chunk {
    /// The live instance, if there is one.
    pub entity: Option<InstanceHandle>,
    /// The instance whose release is awaited, if there is one.
    pub teardown: Option<InstanceHandle>,
    /// The mesh, computed once.
    pub data: ChunkMeshData,
}

impl Default for Chunk {
    fn default() -> (r: Self)
        ensures
            r.entity is None,
            r.teardown is None,
            r.data.0@ == Seq::<Vec2>::empty(),
            r.data.1@ == Seq::<u32>::empty(),
    {
        Chunk { entity: None, teardown: None, data: ChunkMeshData::default() }
    }
}

impl Chunk {
    /// The state of a cached chunk: a live instance makes it `Instantiated`,
    /// otherwise an awaited release makes it `PendingTeardown`, otherwise it is
    /// `DataReady`.
    pub open spec fn spec_state(&self) -> ChunkState {
        if self.entity is Some {
            ChunkState::Instantiated
        } else if self.teardown is Some {
            ChunkState::PendingTeardown
        } else {
            ChunkState::DataReady
        }
    }

    /// The state of this cached chunk.
    #[verifier::when_used_as_spec(spec_state)]
    pub fn state(&self) -> (r: ChunkState)
        ensures
            r == self.spec_state(),
    {
        if self.entity.is_some() {
            ChunkState::Instantiated
        } else if self.teardown.is_some() {
            ChunkState::PendingTeardown
        } else {
            ChunkState::DataReady
        }
    }
}

/// Parameters of the scalar field: world coordinates are multiplied by
/// `scale_numerator / scale_denominator` before the field is evaluated, which
/// sets the size of terrain features.
#[derive(Debug, Copy, Clone, Eq, PartialEq, Structural)]
pub struct Noise {
    pub scale_numerator: u32,
    pub scale_denominator: u32,
}

impl Default for Noise {
    fn default() -> (r: Self)
        ensures
            r == (Noise { scale_numerator: 7, scale_denominator: 1000 }),
    {
        Noise { scale_numerator: 7, scale_denominator: 1000 }
    }
}

/// The sample value above which terrain is solid, in units of `1 / SAMPLE_UNIT`.
#[derive(Debug, Copy, Clone, Ord, PartialOrd, Eq, PartialEq, Structural)]
pub struct NoiseThreshold(pub i32);

impl Default for NoiseThreshold {
    fn default() -> (r: Self)
        ensures
            r == NoiseThreshold(200_000),
            5 * r.0 == SAMPLE_UNIT,
    {
        NoiseThreshold(200_000)
    }
}

} // verus!
