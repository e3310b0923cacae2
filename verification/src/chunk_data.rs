//! The cell values of one chunk.

use crate::cast::i32_to_i64;
use crate::cast::i32_to_usize;
use crate::cast::usize_to_i32;
use crate::cast::usize_to_usize;
use crate::position::CellPosition;
use crate::size::ChunkSize;
use vstd::prelude::*;

verus! {

/// The cells of one chunk: a size and a dense buffer with one value per cell,
/// row by row from the top-left cell.
///
/// Cells are addressed by [`CellPosition`] with the origin in the middle of
/// the chunk: columns run from `-(width / 2)` to the right, rows from
/// `height / 2` downwards.
#[derive(Debug, Clone)]
pub struct ChunkData<T> {
    pub size: ChunkSize,
    pub data: Vec<T>,
}

/// Both dimensions of a chunk are within the range of the signed cell
/// coordinates.
pub open spec fn spec_size_fits(size: ChunkSize) -> bool {
    size.width <= i32::MAX && size.height <= i32::MAX
}

/// The column of `pos`, counted from the left edge of the chunk.
pub open spec fn spec_column(size: ChunkSize, pos: CellPosition) -> int {
    pos.x + size.width / 2
}

/// The row of `pos`, counted from the top edge of the chunk.
pub open spec fn spec_row(size: ChunkSize, pos: CellPosition) -> int {
    size.height / 2 - pos.y
}

/// `pos` is a cell of a chunk of `size`.
pub open spec fn spec_contains(size: ChunkSize, pos: CellPosition) -> bool {
    &&& 0 <= spec_column(size, pos) < size.width
    &&& 0 <= spec_row(size, pos) < size.height
}

/// The place of `pos` in the buffer: rows follow one another from the top,
/// and within a row the cells run from the left.
pub open spec fn spec_convert_to_idx(size: ChunkSize, pos: CellPosition) -> int {
    spec_row(size, pos) * size.width + spec_column(size, pos)
}

/// The cell whose place in the buffer is `idx`.
pub open spec fn spec_cell_at(size: ChunkSize, idx: int) -> CellPosition {
    CellPosition {
        x: (idx % (size.width as int) - size.width / 2) as i32,
        y: (size.height / 2 - idx / (size.width as int)) as i32,
    }
}

/// The number of values that a walk over the chunk reads: one per cell, as
/// far as the buffer reaches.
pub open spec fn spec_walk_len(size: ChunkSize, len: int) -> int {
    if len <= size.width * size.height {
        len
    } else {
        size.width * size.height
    }
}

/// Every cell of a chunk has a place below the number of cells.
pub proof fn lemma_idx_in_range(size: ChunkSize, pos: CellPosition)
    requires
        spec_contains(size, pos),
    ensures
        0 <= spec_convert_to_idx(size, pos) < size.width * size.height,
        0 <= spec_row(size, pos) * size.width <= spec_convert_to_idx(size, pos),
{
    let (w, h) = (size.width as int, size.height as int);
    let row = spec_row(size, pos);
    assert(0 <= row * w && row * w + w <= h * w) by (nonlinear_arith)
        requires
            0 <= row,
            row + 1 <= h,
            0 < w,
    ;
    assert(h * w == w * h) by (nonlinear_arith);
}

/// Two cells of a chunk never share a place.
pub proof fn lemma_idx_injective(size: ChunkSize, p: CellPosition, q: CellPosition)
    requires
        spec_contains(size, p),
        spec_contains(size, q),
        spec_convert_to_idx(size, p) == spec_convert_to_idx(size, q),
    ensures
        p == q,
{
    let w = size.width as int;
    let (rp, rq) = (spec_row(size, p), spec_row(size, q));
    if rp < rq {
        assert(rq * w >= rp * w + w) by (nonlinear_arith)
            requires
                rp + 1 <= rq,
                w > 0,
        ;
    } else if rq < rp {
        assert(rp * w >= rq * w + w) by (nonlinear_arith)
            requires
                rq + 1 <= rp,
                w > 0,
        ;
    }
}

/// Places and cells correspond: the cell at a place below the number of cells
/// is a cell of the chunk, and its place is that place.
pub proof fn lemma_cell_at(size: ChunkSize, idx: int)
    requires
        spec_size_fits(size),
        0 <= idx < size.width * size.height,
    ensures
        spec_contains(size, spec_cell_at(size, idx)),
        spec_convert_to_idx(size, spec_cell_at(size, idx)) == idx,
        spec_column(size, spec_cell_at(size, idx)) == idx % (size.width as int),
        spec_row(size, spec_cell_at(size, idx)) == idx / (size.width as int),
{
    let (w, h) = (size.width as int, size.height as int);
    assert(w > 0) by (nonlinear_arith)
        requires
            0 <= idx < w * h,
            0 <= w,
            0 <= h,
    ;
    let col = idx % w;
    let row = idx / w;
    vstd::arithmetic::div_mod::lemma_fundamental_div_mod(idx, w);
    vstd::arithmetic::div_mod::lemma_mod_bound(idx, w);
    assert(0 <= row < h) by (nonlinear_arith)
        requires
            idx == w * row + col,
            0 <= col < w,
            0 <= idx < w * h,
            0 < w,
    ;
    assert(row * w == w * row) by (nonlinear_arith);
}

/// Half of a dimension, rounded down, as a signed number.
fn half(dimension: usize) -> (r: i32)
    requires
        dimension <= i32::MAX,
    ensures
        r == dimension / 2,
{
    usize_to_i32(dimension).unwrap() / 2
}

/// The column and the row of `pos`, if it is a cell of a chunk of `size`.
fn column_and_row(size: ChunkSize, pos: CellPosition) -> (r: Option<(usize, usize)>)
    requires
        spec_size_fits(size),
    ensures
        r == (if spec_contains(size, pos) {
            Some((spec_column(size, pos) as usize, spec_row(size, pos) as usize))
        } else {
            None
        }),
{
    let x: i64 = i32_to_i64(pos.x).unwrap() + i32_to_i64(half(size.width)).unwrap();
    let y: i64 = i32_to_i64(half(size.height)).unwrap() - i32_to_i64(pos.y).unwrap();
    let width: i64 = i32_to_i64(usize_to_i32(size.width).unwrap()).unwrap();
    let height: i64 = i32_to_i64(usize_to_i32(size.height).unwrap()).unwrap();
    if 0 <= x && x < width && 0 <= y && y < height {
        Some((i32_to_usize(x as i32).unwrap(), i32_to_usize(y as i32).unwrap()))
    } else {
        None
    }
}

impl<T> ChunkData<T> {
    /// The buffer holds exactly one value per cell, and the cells can be
    /// addressed.
    pub open spec fn wf(&self) -> bool {
        &&& spec_size_fits(self.size)
        &&& self.data@.len() == self.size.width * self.size.height
    }

    /// Create a chunk using a seed function. The seed function takes the
    /// position of a cell, with the origin in the center.
    ///
    /// The seed is asked for every cell of the chunk, row by row from the top
    /// and from left to right within a row, and its answers fill the buffer in
    /// that order.
    pub fn new_with_seed<F>(size: ChunkSize, mut seed: F) -> (r: Self) where
        F: FnMut(CellPosition) -> T,

        requires
            spec_size_fits(size),
            size.width * size.height <= usize::MAX,
            forall|pos: CellPosition| spec_contains(size, pos) ==> #[trigger] seed.requires((pos,)),
        ensures
            r.size == size,
            r.wf(),
            forall|i: int|
                0 <= i < r.data@.len() ==> call_ensures(
                    seed,
                    (spec_cell_at(size, i),),
                    #[trigger] r.data@[i],
                ),
    {
        let ghost asked = seed;
        let mut data: Vec<T> = Vec::with_capacity(
            usize_to_usize(size.width * size.height).unwrap(),
        );

        let left: i64 = -i32_to_i64(half(size.width)).unwrap();
        let top: i64 = i32_to_i64(half(size.height)).unwrap();
        let width: i64 = i32_to_i64(usize_to_i32(size.width).unwrap()).unwrap();
        let height: i64 = i32_to_i64(usize_to_i32(size.height).unwrap()).unwrap();

        let mut row: i64 = 0;
        while row < height
            invariant
                asked == seed,
                spec_size_fits(size),
                width == size.width,
                height == size.height,
                left == -(size.width / 2),
                top == size.height / 2,
                0 <= row <= height,
                data@.len() == row * width,
                forall|pos: CellPosition|
                    spec_contains(size, pos) ==> #[trigger] seed.requires((pos,)),
                forall|i: int|
                    0 <= i < data@.len() ==> call_ensures(
                        asked,
                        (spec_cell_at(size, i),),
                        #[trigger] data@[i],
                    ),
            decreases height - row,
        {
            let mut column: i64 = 0;
            while column < width
                invariant
                    asked == seed,
                    spec_size_fits(size),
                    width == size.width,
                    height == size.height,
                    left == -(size.width / 2),
                    top == size.height / 2,
                    0 <= row < height,
                    0 <= column <= width,
                    data@.len() == row * width + column,
                    forall|pos: CellPosition|
                        spec_contains(size, pos) ==> #[trigger] seed.requires((pos,)),
                    forall|i: int|
                        0 <= i < data@.len() ==> call_ensures(
                            asked,
                            (spec_cell_at(size, i),),
                            #[trigger] data@[i],
                        ),
                decreases width - column,
            {
                let pos = CellPosition::new((left + column) as i32, (top - row) as i32);
                proof {
                    let place = row * width + column;
                    assert(spec_contains(size, pos));
                    lemma_idx_in_range(size, pos);
                    lemma_cell_at(size, place);
                    lemma_idx_injective(size, pos, spec_cell_at(size, place));
                }
                data.push(seed(pos));
                column = column + 1;
            }
            proof {
                assert((row + 1) * width == row * width + width) by (nonlinear_arith);
            }
            row = row + 1;
        }
        proof {
            assert(height * width == size.width * size.height) by (nonlinear_arith)
                requires
                    width == size.width,
                    height == size.height,
            ;
        }

        Self { size, data }
    }

    /// Convert a `CellPosition` into a valid index for the array.
    pub fn convert_to_idx(&self, pos: CellPosition) -> (idx: usize)
        requires
            spec_size_fits(self.size),
            spec_contains(self.size, pos),
            self.size.width * self.size.height <= usize::MAX,
        ensures
            idx == spec_convert_to_idx(self.size, pos),
            idx < self.size.width * self.size.height,
    {
        proof {
            lemma_idx_in_range(self.size, pos);
        }
        let (column, row) = column_and_row(self.size, pos).unwrap();

        row * self.size.width + column
    }

    /// The value of the cell at `pos`, if `pos` is a cell of the chunk and the
    /// buffer reaches that far.
    pub fn get(&self, pos: CellPosition) -> (r: Option<&T>)
        requires
            spec_size_fits(self.size),
        ensures
            r == (if spec_contains(self.size, pos) && spec_convert_to_idx(self.size, pos)
                < self.data@.len() {
                Some(&self.data@[spec_convert_to_idx(self.size, pos)])
            } else {
                None
            }),
    {
        match column_and_row(self.size, pos) {
            Some((column, row)) => {
                proof {
                    lemma_idx_in_range(self.size, pos);
                    assert(row * self.size.width <= 0x7fff_ffff * 0x7fff_ffff) by (nonlinear_arith)
                        requires
                            0 <= row <= 0x7fff_ffff,
                            0 <= self.size.width <= 0x7fff_ffff,
                    ;
                }
                let idx: u64 = (row as u64) * (self.size.width as u64) + column as u64;
                if idx < self.data.len() as u64 {
                    Some(&self.data[idx as usize])
                } else {
                    None
                }
            },
            None => None,
        }
    }

    /// The value of the cell at `pos`, for writing, if `pos` is a cell of the
    /// chunk and the buffer reaches that far.
    pub fn get_mut(&mut self, pos: CellPosition) -> (r: Option<&mut T>)
        requires
            spec_size_fits(old(self).size),
        ensures
            final(self).size == old(self).size,
            match r {
                Some(value) => {
                    let idx = spec_convert_to_idx(old(self).size, pos);
                    &&& spec_contains(old(self).size, pos)
                    &&& idx < old(self).data@.len()
                    &&& *value == old(self).data@[idx]
                    &&& final(self).data@ == old(self).data@.update(idx, *final(value))
                },
                None => {
                    &&& !(spec_contains(old(self).size, pos) && spec_convert_to_idx(
                        old(self).size,
                        pos,
                    ) < old(self).data@.len())
                    &&& final(self).data@ == old(self).data@
                },
            },
    {
        match column_and_row(self.size, pos) {
            Some((column, row)) => {
                proof {
                    lemma_idx_in_range(self.size, pos);
                    assert(row * self.size.width <= 0x7fff_ffff * 0x7fff_ffff) by (nonlinear_arith)
                        requires
                            0 <= row <= 0x7fff_ffff,
                            0 <= self.size.width <= 0x7fff_ffff,
                    ;
                }
                let idx: u64 = (row as u64) * (self.size.width as u64) + column as u64;
                if idx < self.data.len() as u64 {
                    Some(&mut self.data[idx as usize])
                } else {
                    None
                }
            },
            None => None,
        }
    }

    /// Iterate over the chunk starting at the top left going to the bottom
    /// right.
    ///
    /// The cells are walked row by row, and each is read at its own place:
    /// entry `i` is the value at place `i`. The walk ends with the last cell,
    /// or earlier where the buffer ends.
    pub fn iter(&self) -> (r: Vec<&T>)
        requires
            spec_size_fits(self.size),
        ensures
            r@.len() == spec_walk_len(self.size, self.data@.len() as int),
            forall|i: int| 0 <= i < r@.len() ==> *(#[trigger] r@[i]) == self.data@[i],
    {
        let size = self.size;
        let left: i32 = -half(size.width);
        let top: i32 = half(size.height);
        let width: i32 = usize_to_i32(size.width).unwrap();
        let height: i32 = usize_to_i32(size.height).unwrap();

        let mut found: Vec<&T> = Vec::new();
        let mut row: i32 = 0;
        while row < height
            invariant
                size == self.size,
                spec_size_fits(size),
                width == size.width,
                height == size.height,
                left == -(size.width / 2),
                top == size.height / 2,
                0 <= row <= height,
                found@.len() == row * width,
                found@.len() <= self.data@.len(),
                forall|i: int| 0 <= i < found@.len() ==> *(#[trigger] found@[i]) == self.data@[i],
            decreases height - row,
        {
            let mut column: i32 = 0;
            while column < width
                invariant
                    size == self.size,
                    spec_size_fits(size),
                    width == size.width,
                    height == size.height,
                    left == -(size.width / 2),
                    top == size.height / 2,
                    0 <= row < height,
                    0 <= column <= width,
                    found@.len() == row * width + column,
                    found@.len() <= self.data@.len(),
                    forall|i: int|
                        0 <= i < found@.len() ==> *(#[trigger] found@[i]) == self.data@[i],
                decreases width - column,
            {
                let ret = CellPosition::new(left + column, top - row);
                proof {
                    assert(spec_contains(size, ret));
                    lemma_idx_in_range(size, ret);
                }
                match self.get(ret) {
                    Some(value) => {
                        found.push(value);
                    },
                    None => {
                        return found;
                    },
                }
                column = column + 1;
            }
            proof {
                assert((row + 1) * width == row * width + width) by (nonlinear_arith);
            }
            row = row + 1;
        }
        proof {
            assert(height * width == size.width * size.height) by (nonlinear_arith)
                requires
                    width == size.width,
                    height == size.height,
            ;
        }
        found
    }

    /// Iterate over the chunk starting at the top left going to the bottom
    /// right, with the position of each cell.
    ///
    /// The walk is that of [`ChunkData::iter`]: entry `i` pairs the cell at
    /// place `i` with the value at place `i`.
    pub fn iter_position(&self) -> (r: Vec<(CellPosition, &T)>)
        requires
            spec_size_fits(self.size),
        ensures
            r@.len() == spec_walk_len(self.size, self.data@.len() as int),
            forall|i: int|
                0 <= i < r@.len() ==> {
                    &&& (#[trigger] r@[i]).0 == spec_cell_at(self.size, i)
                    &&& *r@[i].1 == self.data@[i]
                },
    {
        let size = self.size;
        let left: i32 = -half(size.width);
        let top: i32 = half(size.height);
        let width: i32 = usize_to_i32(size.width).unwrap();
        let height: i32 = usize_to_i32(size.height).unwrap();

        let mut found: Vec<(CellPosition, &T)> = Vec::new();
        let mut row: i32 = 0;
        while row < height
            invariant
                size == self.size,
                spec_size_fits(size),
                width == size.width,
                height == size.height,
                left == -(size.width / 2),
                top == size.height / 2,
                0 <= row <= height,
                found@.len() == row * width,
                found@.len() <= self.data@.len(),
                forall|i: int|
                    0 <= i < found@.len() ==> {
                        &&& (#[trigger] found@[i]).0 == spec_cell_at(size, i)
                        &&& *found@[i].1 == self.data@[i]
                    },
            decreases height - row,
        {
            let mut column: i32 = 0;
            while column < width
                invariant
                    size == self.size,
                    spec_size_fits(size),
                    width == size.width,
                    height == size.height,
                    left == -(size.width / 2),
                    top == size.height / 2,
                    0 <= row < height,
                    0 <= column <= width,
                    found@.len() == row * width + column,
                    found@.len() <= self.data@.len(),
                    forall|i: int|
                        0 <= i < found@.len() ==> {
                            &&& (#[trigger] found@[i]).0 == spec_cell_at(size, i)
                            &&& *found@[i].1 == self.data@[i]
                        },
                decreases width - column,
            {
                let ret = CellPosition::new(left + column, top - row);
                proof {
                    let place = row * width + column;
                    assert(spec_contains(size, ret));
                    lemma_idx_in_range(size, ret);
                    lemma_cell_at(size, place);
                    lemma_idx_injective(size, ret, spec_cell_at(size, place));
                }
                match self.get(ret) {
                    Some(value) => {
                        found.push((ret, value));
                    },
                    None => {
                        return found;
                    },
                }
                column = column + 1;
            }
            proof {
                assert((row + 1) * width == row * width + width) by (nonlinear_arith);
            }
            row = row + 1;
        }
        proof {
            assert(height * width == size.width * size.height) by (nonlinear_arith)
                requires
                    width == size.width,
                    height == size.height,
            ;
        }
        found
    }
}

impl<T: Default> ChunkData<T> {
    /// Create a chunk using the default value of `T`: one value for each cell.
    pub fn new_default(size: ChunkSize) -> (r: Self)
        requires
            size.width * size.height <= usize::MAX,
        ensures
            r.size == size,
            r.data@.len() == size.width * size.height,
            spec_size_fits(size) ==> r.wf(),
            forall|i: int|
                0 <= i < r.data@.len() ==> call_ensures(T::default, (), #[trigger] r.data@[i]),
    {
        let count = usize_to_usize(size.width * size.height).unwrap();
        let mut data: Vec<T> = Vec::new();
        let mut i: usize = 0;
        while i < count
            invariant
                i <= count,
                data@.len() == i,
                forall|j: int| 0 <= j < i ==> call_ensures(T::default, (), #[trigger] data@[j]),
            decreases count - i,
        {
            data.push(T::default());
            i = i + 1;
        }

        Self { size, data }
    }
}

impl<T: Clone> ChunkData<T> {
    /// Create a chunk by cloning `e`: one clone for each cell.
    pub fn new_with(size: ChunkSize, e: T) -> (r: Self)
        requires
            size.width * size.height <= usize::MAX,
        ensures
            r.size == size,
            r.data@.len() == size.width * size.height,
            spec_size_fits(size) ==> r.wf(),
            forall|i: int| 0 <= i < r.data@.len() ==> cloned(e, #[trigger] r.data@[i]),
    {
        Self { size, data: vec![e; usize_to_usize(size.width * size.height).unwrap()] }
    }
}

} // verus!
