//! Contour extraction by marching squares.

use crate::terrain::chunk::CellSize;
use crate::terrain::chunk::ChunkData;
use crate::terrain::chunk::ChunkSize;
use crate::terrain::chunk::MAX_CELL_DIMENSION;
use crate::terrain::chunk::spec_fits_world;
use crate::terrain::chunk::spec_sample_index;
use crate::vec2::Vec2;
use vstd::prelude::*;

verus! {

/// A named point of a cell: the middle of one of its edges, or one of its corners.
#[derive(Debug, Copy, Clone, Ord, PartialOrd, Eq, PartialEq, Structural)]
pub enum Side {
    Top,
    Right,
    Bottom,
    Left,
    TopLeft,
    TopRight,
    BotRight,
    BotLeft,
}

/// The number of entries of the triangle table: the sixteen corner patterns
/// and the two split variants of the saddle patterns.
pub const CASE_COUNT: usize = 18;

/// The triangle table. Entry `case` lists the anchors of the triangles that
/// cover the solid part of a cell, three anchors per triangle.
///
/// Entries 0 to 15 are indexed by the corner pattern (top-left 8, top-right 4,
/// bottom-right 2, bottom-left 1). Entries 16 and 17 replace the saddle
/// patterns 5 and 10 when the two solid corners are not connected.
pub open spec fn spec_tri_lut(case: int) -> Seq<Side> {
    if case == 1 {
        seq![Side::Left, Side::BotLeft, Side::Bottom]
    } else if case == 2 {
        seq![Side::Bottom, Side::BotRight, Side::Right]
    } else if case == 3 {
        seq![Side::Left, Side::BotLeft, Side::BotRight, Side::Left, Side::BotRight, Side::Right]
    } else if case == 4 {
        seq![Side::Top, Side::Right, Side::TopRight]
    } else if case == 5 {
        seq![
            Side::Left,
            Side::BotLeft,
            Side::Bottom,
            Side::Left,
            Side::Bottom,
            Side::Right,
            Side::Left,
            Side::Right,
            Side::Top,
            Side::Top,
            Side::Right,
            Side::TopRight,
        ]
    } else if case == 6 {
        seq![Side::Top, Side::BotRight, Side::TopRight, Side::Bottom, Side::BotRight, Side::Top]
    } else if case == 7 {
        seq![
            Side::BotLeft,
            Side::BotRight,
            Side::TopRight,
            Side::TopRight,
            Side::Top,
            Side::Left,
            Side::Left,
            Side::BotLeft,
            Side::TopRight,
        ]
    } else if case == 8 {
        seq![Side::TopLeft, Side::Left, Side::Top]
    } else if case == 9 {
        seq![Side::TopLeft, Side::BotLeft, Side::Bottom, Side::Bottom, Side::Top, Side::TopLeft]
    } else if case == 10 {
        seq![
            Side::TopLeft,
            Side::Left,
            Side::Top,
            Side::Left,
            Side::Bottom,
            Side::Top,
            Side::Top,
            Side::Bottom,
            Side::Right,
            Side::Right,
            Side::Bottom,
            Side::BotRight,
        ]
    } else if case == 11 {
        seq![
            Side::TopLeft,
            Side::BotLeft,
            Side::BotRight,
            Side::TopLeft,
            Side::BotRight,
            Side::Right,
            Side::Right,
            Side::Top,
            Side::TopLeft,
        ]
    } else if case == 12 {
        seq![Side::TopLeft, Side::Right, Side::TopRight, Side::TopLeft, Side::Left, Side::Right]
    } else if case == 13 {
        seq![
            Side::TopRight,
            Side::TopLeft,
            Side::BotLeft,
            Side::BotLeft,
            Side::Bottom,
            Side::Right,
            Side::Right,
            Side::TopRight,
            Side::BotLeft,
        ]
    } else if case == 14 {
        seq![
            Side::TopLeft,
            Side::BotRight,
            Side::TopRight,
            Side::TopLeft,
            Side::Left,
            Side::Bottom,
            Side::Bottom,
            Side::BotRight,
            Side::TopLeft,
        ]
    } else if case == 15 {
        seq![
            Side::TopLeft,
            Side::BotLeft,
            Side::BotRight,
            Side::BotRight,
            Side::TopRight,
            Side::TopLeft,
        ]
    } else if case == 16 {
        seq![Side::Left, Side::BotLeft, Side::Bottom, Side::Top, Side::Right, Side::TopRight]
    } else if case == 17 {
        seq![Side::Bottom, Side::BotRight, Side::Right, Side::TopLeft, Side::Left, Side::Top]
    } else {
        Seq::empty()
    }
}

/// Looks up entry `case` of the triangle table.
pub fn tri_lut(case: usize) -> (r: &'static [Side])
    requires
        case < CASE_COUNT,
    ensures
        r@ == spec_tri_lut(case as int),
{
    let r: &'static [Side] = match case {
        0 => &[],
        1 => &[Side::Left, Side::BotLeft, Side::Bottom],
        2 => &[Side::Bottom, Side::BotRight, Side::Right],
        3 => &[Side::Left, Side::BotLeft, Side::BotRight, Side::Left, Side::BotRight, Side::Right],
        4 => &[Side::Top, Side::Right, Side::TopRight],
        5 => &[
            Side::Left,
            Side::BotLeft,
            Side::Bottom,
            Side::Left,
            Side::Bottom,
            Side::Right,
            Side::Left,
            Side::Right,
            Side::Top,
            Side::Top,
            Side::Right,
            Side::TopRight,
        ],
        6 => &[Side::Top, Side::BotRight, Side::TopRight, Side::Bottom, Side::BotRight, Side::Top],
        7 => &[
            Side::BotLeft,
            Side::BotRight,
            Side::TopRight,
            Side::TopRight,
            Side::Top,
            Side::Left,
            Side::Left,
            Side::BotLeft,
            Side::TopRight,
        ],
        8 => &[Side::TopLeft, Side::Left, Side::Top],
        9 => &[Side::TopLeft, Side::BotLeft, Side::Bottom, Side::Bottom, Side::Top, Side::TopLeft],
        10 => &[
            Side::TopLeft,
            Side::Left,
            Side::Top,
            Side::Left,
            Side::Bottom,
            Side::Top,
            Side::Top,
            Side::Bottom,
            Side::Right,
            Side::Right,
            Side::Bottom,
            Side::BotRight,
        ],
        11 => &[
            Side::TopLeft,
            Side::BotLeft,
            Side::BotRight,
            Side::TopLeft,
            Side::BotRight,
            Side::Right,
            Side::Right,
            Side::Top,
            Side::TopLeft,
        ],
        12 => &[Side::TopLeft, Side::Right, Side::TopRight, Side::TopLeft, Side::Left, Side::Right],
        13 => &[
            Side::TopRight,
            Side::TopLeft,
            Side::BotLeft,
            Side::BotLeft,
            Side::Bottom,
            Side::Right,
            Side::Right,
            Side::TopRight,
            Side::BotLeft,
        ],
        14 => &[
            Side::TopLeft,
            Side::BotRight,
            Side::TopRight,
            Side::TopLeft,
            Side::Left,
            Side::Bottom,
            Side::Bottom,
            Side::BotRight,
            Side::TopLeft,
        ],
        15 => &[
            Side::TopLeft,
            Side::BotLeft,
            Side::BotRight,
            Side::BotRight,
            Side::TopRight,
            Side::TopLeft,
        ],
        16 => &[Side::Left, Side::BotLeft, Side::Bottom, Side::Top, Side::Right, Side::TopRight],
        _ => &[Side::Bottom, Side::BotRight, Side::Right, Side::TopLeft, Side::Left, Side::Top],
    };
    assert(r@ =~= spec_tri_lut(case as int));
    r
}

/// The corner pattern of a cell: 8 for a top-left sample above the threshold,
/// 4 for top-right, 2 for bottom-right and 1 for bottom-left, added up.
pub open spec fn spec_corner_pattern(
    top_left: i32,
    top_right: i32,
    bot_right: i32,
    bot_left: i32,
    threshold: i32,
) -> int {
    (if top_left > threshold { 8int } else { 0 })
        + (if top_right > threshold { 4int } else { 0 })
        + (if bot_right > threshold { 2int } else { 0 })
        + (if bot_left > threshold { 1int } else { 0 })
}

/// Whether the mean of the four corner samples lies above the threshold.
pub open spec fn spec_mean_above(
    top_left: i32,
    top_right: i32,
    bot_right: i32,
    bot_left: i32,
    threshold: i32,
) -> bool {
    top_left + top_right + bot_right + bot_left > 4 * threshold
}

/// The table entry that triangulates a cell.
///
/// It is the corner pattern, except at the two saddles: pattern 5 (top-left and
/// bottom-right solid) and pattern 10 (top-right and bottom-left solid) keep
/// their entry only when the mean of the corners is above the threshold, and
/// otherwise become 16 and 17, which leave the two solid corners apart.
pub open spec fn spec_case_index(
    top_left: i32,
    top_right: i32,
    bot_right: i32,
    bot_left: i32,
    threshold: i32,
) -> int {
    let pattern = spec_corner_pattern(top_left, top_right, bot_right, bot_left, threshold);
    let joined = spec_mean_above(top_left, top_right, bot_right, bot_left, threshold);
    if pattern == 5 && !joined {
        16
    } else if pattern == 10 && !joined {
        17
    } else {
        pattern
    }
}

/// Computes the table entry that triangulates a cell with the given corner samples.
pub fn case_index(
    top_left: i32,
    top_right: i32,
    bot_right: i32,
    bot_left: i32,
    threshold: i32,
) -> (idx: usize)
    ensures
        idx == spec_case_index(top_left, top_right, bot_right, bot_left, threshold),
        idx < CASE_COUNT,
{
    let mut idx: usize = 0;
    if top_left > threshold {
        idx = idx + 8;
    }
    if top_right > threshold {
        idx = idx + 4;
    }
    if bot_right > threshold {
        idx = idx + 2;
    }
    if bot_left > threshold {
        idx = idx + 1;
    }
    let sum: i64 = top_left as i64 + top_right as i64 + bot_right as i64 + bot_left as i64;
    let joined = sum > 4 * (threshold as i64);
    if idx == 5 && !joined {
        16
    } else if idx == 10 && !joined {
        17
    } else {
        idx
    }
}

/// Where an anchor lies in a cell of size `cz`, relative to the cell's top-left
/// corner, with the vertical axis pointing up.
///
/// A corner anchor is that corner of the cell. An edge anchor is the exact
/// middle of its edge, whatever the samples at the two ends are.
pub open spec fn spec_point(side: Side, cz: CellSize) -> Vec2 {
    match side {
        Side::Top => Vec2 { hx: cz.0 as i64, hy: 0 },
        Side::Right => Vec2 { hx: (2 * cz.0) as i64, hy: (-cz.1) as i64 },
        Side::Bottom => Vec2 { hx: cz.0 as i64, hy: (-2 * cz.1) as i64 },
        Side::Left => Vec2 { hx: 0, hy: (-cz.1) as i64 },
        Side::TopLeft => Vec2 { hx: 0, hy: 0 },
        Side::TopRight => Vec2 { hx: (2 * cz.0) as i64, hy: 0 },
        Side::BotRight => Vec2 { hx: (2 * cz.0) as i64, hy: (-2 * cz.1) as i64 },
        Side::BotLeft => Vec2 { hx: 0, hy: (-2 * cz.1) as i64 },
    }
}

/// The two corners of the cell that an anchor lies between: the ends of its
/// edge for an edge anchor, and the corner itself, twice, for a corner anchor.
pub open spec fn spec_edge_ends(side: Side) -> (Side, Side) {
    match side {
        Side::Top => (Side::TopLeft, Side::TopRight),
        Side::Right => (Side::TopRight, Side::BotRight),
        Side::Bottom => (Side::BotRight, Side::BotLeft),
        Side::Left => (Side::BotLeft, Side::TopLeft),
        corner => (corner, corner),
    }
}

/// An edge anchor is the exact middle of its edge: twice the anchor is the sum
/// of the two corners at the ends of the edge.
pub proof fn lemma_edge_anchor_is_midpoint(side: Side, cz: CellSize)
    requires
        cz.0 <= MAX_CELL_DIMENSION,
        cz.1 <= MAX_CELL_DIMENSION,
    ensures
        2 * spec_point(side, cz).hx == spec_point(spec_edge_ends(side).0, cz).hx + spec_point(
            spec_edge_ends(side).1,
            cz,
        ).hx,
        2 * spec_point(side, cz).hy == spec_point(spec_edge_ends(side).0, cz).hy + spec_point(
            spec_edge_ends(side).1,
            cz,
        ).hy,
{
}

/// The point between `a` and `b` that separates samples `w1` at `a` and `w2`
/// at `b` around `thresh`.
///
/// The samples do not move the point: it is always the middle of the segment.
fn lerp(a: Vec2, b: Vec2, w1: i32, w2: i32, thresh: i32) -> (r: Vec2)
    requires
        (a.hx + b.hx) % 2 == 0,
        (a.hy + b.hy) % 2 == 0,
    ensures
        2 * r.hx == a.hx + b.hx,
        2 * r.hy == a.hy + b.hy,
{
    Vec2 { hx: half_of_sum(a.hx, b.hx), hy: half_of_sum(a.hy, b.hy) }
}

/// Half of `a + b`, for an even sum.
fn half_of_sum(a: i64, b: i64) -> (r: i64)
    requires
        (a + b) % 2 == 0,
    ensures
        2 * r == a + b,
{
    let sum: i128 = a as i128 + b as i128;
    if sum >= 0 {
        (sum / 2) as i64
    } else {
        let pos: i128 = -sum;
        assert(pos % 2 == 0) by {
            assert(sum % 2 == 0);
        }
        let half: i128 = pos / 2;
        (-half) as i64
    }
}

/// Places one anchor of a cell, relative to the cell's top-left corner.
///
/// `pts` holds the corner samples (top-left, top-right, bottom-right,
/// bottom-left); neither they nor `threshold` change the result.
pub fn get_point(pts: &[i32; 4], side: Side, cz: CellSize, threshold: i32) -> (r: Vec2)
    requires
        cz.0 <= MAX_CELL_DIMENSION,
        cz.1 <= MAX_CELL_DIMENSION,
    ensures
        r == spec_point(side, cz),
{
    let cx: i64 = 2 * (cz.0 as i64);
    let cy: i64 = 2 * (cz.1 as i64);
    match side {
        Side::Top => {
            let a = Vec2 { hx: 0, hy: 0 };
            let b = Vec2 { hx: cx, hy: 0 };
            lerp(a, b, pts[0], pts[1], threshold)
        },
        Side::Right => {
            let a = Vec2 { hx: cx, hy: 0 };
            let b = Vec2 { hx: cx, hy: -cy };
            lerp(a, b, pts[1], pts[2], threshold)
        },
        Side::Bottom => {
            let a = Vec2 { hx: cx, hy: -cy };
            let b = Vec2 { hx: 0, hy: -cy };
            lerp(a, b, pts[2], pts[3], threshold)
        },
        Side::Left => {
            let a = Vec2 { hx: 0, hy: -cy };
            let b = Vec2 { hx: 0, hy: 0 };
            lerp(a, b, pts[3], pts[0], threshold)
        },
        Side::TopLeft => Vec2 { hx: 0, hy: 0 },
        Side::TopRight => Vec2 { hx: cx, hy: 0 },
        Side::BotRight => Vec2 { hx: cx, hy: -cy },
        Side::BotLeft => Vec2 { hx: 0, hy: -cy },
    }
}

/// Places two anchors of a cell at once.
pub fn get_points(pts: [i32; 4], op: (&Side, &Side), cz: CellSize, threshold: i32) -> (r: (
    Vec2,
    Vec2,
))
    requires
        cz.0 <= MAX_CELL_DIMENSION,
        cz.1 <= MAX_CELL_DIMENSION,
    ensures
        r.0 == spec_point(*op.0, cz),
        r.1 == spec_point(*op.1, cz),
{
    let pt1 = get_point(&pts, *op.0, cz, threshold);
    let pt2 = get_point(&pts, *op.1, cz, threshold);
    (pt1, pt2)
}

/// The table entry for the cell whose top-left corner is corner `(x, y)` of the chunk.
pub open spec fn spec_cell_case(
    data: Seq<i32>,
    size: ChunkSize,
    threshold: i32,
    x: int,
    y: int,
) -> int {
    spec_case_index(
        data[spec_sample_index(size, x, y)],
        data[spec_sample_index(size, x + 1, y)],
        data[spec_sample_index(size, x + 1, y + 1)],
        data[spec_sample_index(size, x, y + 1)],
        threshold,
    )
}

/// An anchor of cell `(x, y)`, relative to the chunk's top-left corner: the
/// anchor's place in the cell, moved right by `x` cells and down by `y` cells.
pub open spec fn spec_cell_vertex(side: Side, cz: CellSize, x: int, y: int) -> Vec2 {
    let p = spec_point(side, cz);
    Vec2 { hx: (p.hx + 2 * (x * cz.0)) as i64, hy: (p.hy - 2 * (y * cz.1)) as i64 }
}

/// The vertices that cell `(x, y)` contributes: the anchors of its table entry,
/// in table order, each one a vertex of its own.
pub open spec fn spec_cell_vertices(
    data: Seq<i32>,
    size: ChunkSize,
    cz: CellSize,
    threshold: i32,
    x: int,
    y: int,
) -> Seq<Vec2> {
    let anchors = spec_tri_lut(spec_cell_case(data, size, threshold, x, y));
    Seq::new(anchors.len(), |i: int| spec_cell_vertex(anchors[i], cz, x, y))
}

/// The vertices of the first `cells` cells. Cells are taken column by column,
/// each column from top to bottom: cell number `k` is `(k / h, k % h)` in a
/// chunk that is `h` cells high.
pub open spec fn spec_vertices_upto(
    data: Seq<i32>,
    size: ChunkSize,
    cz: CellSize,
    threshold: i32,
    cells: nat,
) -> Seq<Vec2>
    decreases cells,
{
    if cells == 0 {
        Seq::empty()
    } else {
        let k = (cells - 1) as nat;
        spec_vertices_upto(data, size, cz, threshold, k) + spec_cell_vertices(
            data,
            size,
            cz,
            threshold,
            k as int / size.1 as int,
            k as int % size.1 as int,
        )
    }
}

/// The vertex list of the contour mesh of a whole chunk.
pub open spec fn spec_vertices(
    data: Seq<i32>,
    size: ChunkSize,
    cz: CellSize,
    threshold: i32,
) -> Seq<Vec2> {
    spec_vertices_upto(data, size, cz, threshold, (size.0 * size.1) as nat)
}

/// The index list of a mesh of `count` vertices that shares none of them: `0, 1, 2, ...`.
pub open spec fn spec_indices(count: nat) -> Seq<u32> {
    Seq::new(count, |i: int| i as u32)
}

/// Every table entry holds whole triangles, and at most four of them.
pub proof fn lemma_tri_lut_whole_triangles(case: int)
    ensures
        spec_tri_lut(case).len() % 3 == 0,
        spec_tri_lut(case).len() <= 12,
{
}

/// A longer run of cells never has fewer vertices than a shorter one.
pub proof fn lemma_vertices_upto_monotonic(
    data: Seq<i32>,
    size: ChunkSize,
    cz: CellSize,
    threshold: i32,
    fewer: nat,
    more: nat,
)
    requires
        fewer <= more,
    ensures
        spec_vertices_upto(data, size, cz, threshold, fewer).len() <= spec_vertices_upto(
            data,
            size,
            cz,
            threshold,
            more,
        ).len(),
    decreases more,
{
    if fewer < more {
        lemma_vertices_upto_monotonic(data, size, cz, threshold, fewer, (more - 1) as nat);
    }
}

/// A mesh never has more than twelve vertices per cell.
pub proof fn lemma_vertices_upto_bound(
    data: Seq<i32>,
    size: ChunkSize,
    cz: CellSize,
    threshold: i32,
    cells: nat,
)
    ensures
        spec_vertices_upto(data, size, cz, threshold, cells).len() <= 12 * cells,
        spec_vertices_upto(data, size, cz, threshold, cells).len() % 3 == 0,
    decreases cells,
{
    if cells > 0 {
        let k = (cells - 1) as nat;
        lemma_vertices_upto_bound(data, size, cz, threshold, k);
        lemma_tri_lut_whole_triangles(
            spec_cell_case(data, size, threshold, k as int / size.1 as int, k as int % size.1 as int),
        );
    }
}

/// Appends `vert` as a fresh vertex and refers to it by the next index.
fn vpush(verts: &mut Vec<Vec2>, idxs: &mut Vec<u32>, vert: Vec2)
    requires
        old(verts)@.len() <= u32::MAX,
    ensures
        final(verts)@ == old(verts)@.push(vert),
        final(idxs)@ == old(idxs)@.push(old(verts)@.len() as u32),
{
    let next_idx = verts.len();
    verts.push(vert);
    idxs.push(next_idx as u32);
}

/// Cell `(x, y)` of a chunk `h` cells high is cell number `x * h + y`, and comes
/// before the end of a chunk `w` cells wide.
proof fn lemma_cell_number(w: int, h: int, x: int, y: int)
    requires
        0 <= x < w,
        0 <= y < h,
    ensures
        0 <= x * h + y < w * h,
        (x * h + y) / h == x,
        (x * h + y) % h == y,
        (x + 1) * h == x * h + h,
{
    assert(0 <= x * h) by (nonlinear_arith)
        requires
            0 <= x,
            0 <= h,
    ;
    assert(x * h + h <= w * h) by (nonlinear_arith)
        requires
            x + 1 <= w,
            0 <= h,
    ;
    assert((x + 1) * h == x * h + h) by (nonlinear_arith);
    vstd::arithmetic::div_mod::lemma_fundamental_div_mod_converse(x * h + y, h, x, y);
}

/// The offset of cell `(x, y)` stays within the chunk.
proof fn lemma_cell_offset(size: ChunkSize, cz: CellSize, x: int, y: int)
    requires
        spec_fits_world(size, cz),
        0 <= x < size.0,
        0 <= y < size.1,
    ensures
        0 <= x * cz.0,
        0 <= y * cz.1,
        x * cz.0 + cz.0 <= size.0 * cz.0,
        y * cz.1 + cz.1 <= size.1 * cz.1,
        size.0 <= size.0 * cz.0,
        size.1 <= size.1 * cz.1,
        cz.0 <= size.0 * cz.0,
        cz.1 <= size.1 * cz.1,
{
    let (w, h, cw, ch) = (size.0 as int, size.1 as int, cz.0 as int, cz.1 as int);
    assert(0 <= x * cw && x * cw + cw <= w * cw) by (nonlinear_arith)
        requires
            0 <= x,
            x + 1 <= w,
            0 < cw,
    ;
    assert(0 <= y * ch && y * ch + ch <= h * ch) by (nonlinear_arith)
        requires
            0 <= y,
            y + 1 <= h,
            0 < ch,
    ;
    assert(w <= w * cw && cw <= w * cw) by (nonlinear_arith)
        requires
            0 < w,
            0 < cw,
    ;
    assert(h <= h * ch && ch <= h * ch) by (nonlinear_arith)
        requires
            0 < h,
            0 < ch,
    ;
}

/// Every anchor of a cell lies on the border of the cell.
pub proof fn lemma_point_in_cell(side: Side, cz: CellSize)
    requires
        cz.0 <= MAX_CELL_DIMENSION,
        cz.1 <= MAX_CELL_DIMENSION,
    ensures
        0 <= spec_point(side, cz).hx <= 2 * cz.0,
        -2 * cz.1 <= spec_point(side, cz).hy <= 0,
{
}

/// Every vertex of a mesh lies in the rectangle of its chunk: between the
/// top-left corner at the origin and the bottom-right corner, with the
/// vertical axis pointing up.
pub proof fn lemma_vertices_in_chunk(
    data: Seq<i32>,
    size: ChunkSize,
    cz: CellSize,
    threshold: i32,
    cells: nat,
)
    requires
        spec_fits_world(size, cz),
        cells <= size.0 * size.1,
    ensures
        forall|i: int|
            0 <= i < spec_vertices_upto(data, size, cz, threshold, cells).len() ==> {
                let v = #[trigger] spec_vertices_upto(data, size, cz, threshold, cells)[i];
                &&& 0 <= v.hx <= 2 * (size.0 * cz.0)
                &&& -2 * (size.1 * cz.1) <= v.hy <= 0
            },
    decreases cells,
{
    if cells > 0 {
        let k = (cells - 1) as nat;
        let before = spec_vertices_upto(data, size, cz, threshold, k);
        let all = spec_vertices_upto(data, size, cz, threshold, cells);
        lemma_vertices_in_chunk(data, size, cz, threshold, k);
        let x = k as int / size.1 as int;
        let y = k as int % size.1 as int;
        vstd::arithmetic::div_mod::lemma_fundamental_div_mod(k as int, size.1 as int);
        vstd::arithmetic::div_mod::lemma_mod_bound(k as int, size.1 as int);
        assert(0 <= x < size.0) by (nonlinear_arith)
            requires
                k == size.1 * x + y,
                0 <= y < size.1,
                0 <= k < size.0 * size.1,
                0 < size.1,
        ;
        lemma_cell_offset(size, cz, x, y);
        let anchors = spec_tri_lut(spec_cell_case(data, size, threshold, x, y));
        assert forall|i: int| 0 <= i < all.len() implies {
            let v = #[trigger] all[i];
            &&& 0 <= v.hx <= 2 * (size.0 * cz.0)
            &&& -2 * (size.1 * cz.1) <= v.hy <= 0
        } by {
            if i < before.len() {
                assert(all[i] == before[i]);
            } else {
                let j = i - before.len();
                assert(all[i] == spec_cell_vertex(anchors[j], cz, x, y));
                lemma_point_in_cell(anchors[j], cz);
            }
        }
    }
}

/// Extracts the contour mesh of a chunk by marching squares.
///
/// Every cell is classified by which of its corner samples lie above
/// `threshold`, the triangle table gives the anchors of its triangles, and each
/// anchor becomes one vertex, placed relative to the chunk's top-left corner
/// with the vertical axis pointing up. Vertices are never shared: the index
/// list counts them off.
pub fn marching_squares(
    data: ChunkData,
    chunk_size: ChunkSize,
    cell_size: CellSize,
    threshold: i32,
) -> (r: (Vec<Vec2>, Vec<u32>))
    requires
        spec_fits_world(chunk_size, cell_size),
        data.wf(chunk_size),
        spec_vertices(data@, chunk_size, cell_size, threshold).len() <= u32::MAX,
    ensures
        r.0@ == spec_vertices(data@, chunk_size, cell_size, threshold),
        r.1@ == spec_indices(r.0@.len()),
{
    let mut verts: Vec<Vec2> = Vec::new();
    let mut idxs: Vec<u32> = Vec::new();
    let ghost total = spec_vertices(data@, chunk_size, cell_size, threshold);
    assert(idxs@ =~= spec_indices(0));
    assert(0 * chunk_size.1 == 0);

    let mut x: usize = 0;
    while x < chunk_size.0
        invariant
            x <= chunk_size.0,
            spec_fits_world(chunk_size, cell_size),
            data.wf(chunk_size),
            total == spec_vertices(data@, chunk_size, cell_size, threshold),
            total.len() <= u32::MAX,
            verts@ == spec_vertices_upto(
                data@,
                chunk_size,
                cell_size,
                threshold,
                (x * chunk_size.1) as nat,
            ),
            idxs@ == spec_indices(verts@.len()),
        decreases chunk_size.0 - x,
    {
        let mut y: usize = 0;
        while y < chunk_size.1
            invariant
                x < chunk_size.0,
                y <= chunk_size.1,
                spec_fits_world(chunk_size, cell_size),
                data.wf(chunk_size),
                total == spec_vertices(data@, chunk_size, cell_size, threshold),
                total.len() <= u32::MAX,
                verts@ == spec_vertices_upto(
                    data@,
                    chunk_size,
                    cell_size,
                    threshold,
                    (x * chunk_size.1 + y) as nat,
                ),
                idxs@ == spec_indices(verts@.len()),
            decreases chunk_size.1 - y,
        {
            let ghost k: nat = (x * chunk_size.1 + y) as nat;
            let ghost before = verts@;
            let ghost cell = spec_cell_vertices(
                data@,
                chunk_size,
                cell_size,
                threshold,
                x as int,
                y as int,
            );
            proof {
                lemma_cell_number(chunk_size.0 as int, chunk_size.1 as int, x as int, y as int);
                lemma_cell_offset(chunk_size, cell_size, x as int, y as int);
                assert(spec_vertices_upto(data@, chunk_size, cell_size, threshold, k + 1)
                    == before + cell);
                lemma_vertices_upto_monotonic(
                    data@,
                    chunk_size,
                    cell_size,
                    threshold,
                    k + 1,
                    (chunk_size.0 * chunk_size.1) as nat,
                );
                lemma_tri_lut_whole_triangles(
                    spec_cell_case(data@, chunk_size, threshold, x as int, y as int),
                );
            }
            let top_left = data.get_at(chunk_size, x, y);
            let top_right = data.get_at(chunk_size, x + 1, y);
            let bot_right = data.get_at(chunk_size, x + 1, y + 1);
            let bot_left = data.get_at(chunk_size, x, y + 1);

            let idx = case_index(top_left, top_right, bot_right, bot_left, threshold);
            let triangles = tri_lut(idx);
            let pts = [top_left, top_right, bot_right, bot_left];
            let ox: i64 = 2 * ((x as i64) * (cell_size.0 as i64));
            let oy: i64 = 2 * ((y as i64) * (cell_size.1 as i64));

            let mut i: usize = 0;
            while i < triangles.len()
                invariant
                    i <= triangles@.len(),
                    i % 3 == 0,
                    triangles@.len() % 3 == 0,
                    triangles@ == spec_tri_lut(
                        spec_cell_case(data@, chunk_size, threshold, x as int, y as int),
                    ),
                    cell == spec_cell_vertices(
                        data@,
                        chunk_size,
                        cell_size,
                        threshold,
                        x as int,
                        y as int,
                    ),
                    cell.len() == triangles@.len(),
                    verts@ == before + cell.take(i as int),
                    idxs@ == spec_indices(verts@.len()),
                    before.len() + cell.len() <= u32::MAX,
                    spec_fits_world(chunk_size, cell_size),
                    x < chunk_size.0,
                    y < chunk_size.1,
                    ox == 2 * (x * cell_size.0),
                    oy == 2 * (y * cell_size.1),
                    0 <= x * cell_size.0,
                    0 <= y * cell_size.1,
                    x * cell_size.0 + cell_size.0 <= chunk_size.0 * cell_size.0,
                    y * cell_size.1 + cell_size.1 <= chunk_size.1 * cell_size.1,
                decreases triangles@.len() - i,
            {
                let a = triangles[i];
                let b = triangles[i + 1];
                let c = triangles[i + 2];
                let pt_a = get_point(&pts, a, cell_size, threshold);
                let pt_b = get_point(&pts, b, cell_size, threshold);
                let pt_c = get_point(&pts, c, cell_size, threshold);
                let va = Vec2 { hx: pt_a.hx + ox, hy: pt_a.hy - oy };
                let vb = Vec2 { hx: pt_b.hx + ox, hy: pt_b.hy - oy };
                let vc = Vec2 { hx: pt_c.hx + ox, hy: pt_c.hy - oy };
                assert(va == cell[i as int]);
                assert(vb == cell[i + 1]);
                assert(vc == cell[i + 2]);

                vpush(&mut verts, &mut idxs, va);
                vpush(&mut verts, &mut idxs, vb);
                vpush(&mut verts, &mut idxs, vc);
                assert(verts@ =~= before + cell.take(i + 3));
                assert(idxs@ =~= spec_indices(verts@.len()));
                i = i + 3;
            }
            assert(cell.take(i as int) =~= cell);
            y = y + 1;
        }
        proof {
            assert((x + 1) * chunk_size.1 == x * chunk_size.1 + chunk_size.1) by (nonlinear_arith);
        }
        x = x + 1;
    }
    (verts, idxs)
}

/// The number of triangles of a cell with the given corner samples.
pub open spec fn spec_triangle_count(
    top_left: i32,
    top_right: i32,
    bot_right: i32,
    bot_left: i32,
    threshold: i32,
) -> int {
    spec_tri_lut(spec_case_index(top_left, top_right, bot_right, bot_left, threshold)).len() as int
        / 3
}

/// Whatever the corner samples are, the cell has an entry in the triangle
/// table, the entry holds whole triangles, and there are at most four of them.
pub proof fn lemma_case_index_complete(
    top_left: i32,
    top_right: i32,
    bot_right: i32,
    bot_left: i32,
    threshold: i32,
)
    ensures
        0 <= spec_case_index(top_left, top_right, bot_right, bot_left, threshold) < CASE_COUNT,
        spec_tri_lut(
            spec_case_index(top_left, top_right, bot_right, bot_left, threshold),
        ).len() == 3 * spec_triangle_count(top_left, top_right, bot_right, bot_left, threshold),
        0 <= spec_triangle_count(top_left, top_right, bot_right, bot_left, threshold) <= 4,
{
}

/// A cell has at most two triangles, unless exactly three of its corners are
/// solid or it is a saddle whose solid corners are joined.
pub proof fn lemma_at_most_two_triangles(
    top_left: i32,
    top_right: i32,
    bot_right: i32,
    bot_left: i32,
    threshold: i32,
)
    requires
        ({
            let case = spec_case_index(top_left, top_right, bot_right, bot_left, threshold);
            case != 5 && case != 7 && case != 10 && case != 11 && case != 13 && case != 14
        }),
    ensures
        0 <= spec_triangle_count(top_left, top_right, bot_right, bot_left, threshold) <= 2,
{
}

/// A saddle is split exactly when the mean of its corners is not above the
/// threshold: pattern 5 then takes entry 16, pattern 10 entry 17, and neither
/// entry is reached in any other way.
pub proof fn lemma_saddle_rule(
    top_left: i32,
    top_right: i32,
    bot_right: i32,
    bot_left: i32,
    threshold: i32,
)
    ensures
        ({
            let pattern = spec_corner_pattern(top_left, top_right, bot_right, bot_left, threshold);
            let case = spec_case_index(top_left, top_right, bot_right, bot_left, threshold);
            let joined = spec_mean_above(top_left, top_right, bot_right, bot_left, threshold);
            &&& 0 <= pattern < 16
            &&& case == 16 <==> pattern == 5 && !joined
            &&& case == 17 <==> pattern == 10 && !joined
            &&& case < 16 ==> case == pattern
        }),
{
}

} // verus!
