//! Chunk and cell positions on a grid that is centred on the origin.

use crate::cast::i64_to_i32;
use crate::size::CellSize;
use crate::size::ChunkSize;
use crate::vec2::Vec2;
use vstd::prelude::*;
use vstd::std_specs::ops::AddSpec;
use vstd::std_specs::ops::SubSpec;

verus! {

/// The number of the grid line nearest to `coord`, for grid lines `extent`
/// world units apart with line 0 through the origin. `coord` counts half
/// units. A coordinate midway between two lines goes to the one farther from
/// the origin.
pub open spec fn spec_nearest_line(coord: int, extent: int) -> int {
    if coord >= 0 {
        (coord + extent) / (2 * extent)
    } else {
        -((-coord + extent) / (2 * extent))
    }
}

/// The nearest line is at most half a spacing away, and a line strictly
/// nearer to the origin is strictly farther from the coordinate.
pub proof fn lemma_nearest_line_is_nearest(coord: int, extent: int)
    requires
        extent > 0,
    ensures
        ({
            let line = spec_nearest_line(coord, extent);
            &&& -extent <= coord - 2 * (line * extent) <= extent
            &&& coord >= 0 ==> line >= 0 && coord - 2 * (line * extent) < extent
            &&& coord < 0 ==> line <= 0 && coord - 2 * (line * extent) > -extent
        }),
{
    let d = 2 * extent;
    let m = if coord >= 0 {
        coord + extent
    } else {
        -coord + extent
    };
    let q = m / d;
    let r = m % d;
    vstd::arithmetic::div_mod::lemma_fundamental_div_mod(m, d);
    vstd::arithmetic::div_mod::lemma_mod_bound(m, d);
    assert(d * q == 2 * (q * extent)) by (nonlinear_arith)
        requires
            d == 2 * extent,
    ;
    assert(q >= 0) by (nonlinear_arith)
        requires
            m >= 0,
            d > 0,
            m == d * q + r,
            0 <= r < d,
    ;
    if coord < 0 {
        assert((-q) * extent == -(q * extent)) by (nonlinear_arith);
    }
}

/// A coordinate that lies on a line has that line as its nearest.
pub proof fn lemma_nearest_line_of_line(line: int, extent: int)
    requires
        extent > 0,
    ensures
        spec_nearest_line(2 * (line * extent), extent) == line,
{
    let d = 2 * extent;
    let coord = 2 * (line * extent);
    if line >= 0 {
        assert(coord >= 0) by (nonlinear_arith)
            requires
                line >= 0,
                extent > 0,
                coord == 2 * (line * extent),
        ;
        assert(coord + extent == line * d + extent) by (nonlinear_arith)
            requires
                coord == 2 * (line * extent),
                d == 2 * extent,
        ;
        vstd::arithmetic::div_mod::lemma_fundamental_div_mod_converse(
            coord + extent,
            d,
            line,
            extent,
        );
    } else {
        assert(coord < 0) by (nonlinear_arith)
            requires
                line < 0,
                extent > 0,
                coord == 2 * (line * extent),
        ;
        assert(-coord + extent == (-line) * d + extent) by (nonlinear_arith)
            requires
                coord == 2 * (line * extent),
                d == 2 * extent,
        ;
        vstd::arithmetic::div_mod::lemma_fundamental_div_mod_converse(
            -coord + extent,
            d,
            -line,
            extent,
        );
    }
}

/// Computes [`spec_nearest_line`] for a spacing of `extent` units.
fn nearest_line(coord: i64, extent: i64) -> (r: i64)
    requires
        0 < extent <= 0x7fff_ffff,
    ensures
        r == spec_nearest_line(coord as int, extent as int),
{
    let d: i128 = 2 * (extent as i128);
    let c: i128 = coord as i128;
    let m: i128 = if c >= 0 {
        c + extent as i128
    } else {
        -c + extent as i128
    };
    let q: i128 = m / d;
    proof {
        vstd::arithmetic::div_mod::lemma_fundamental_div_mod(m as int, d as int);
        vstd::arithmetic::div_mod::lemma_mod_bound(m as int, d as int);
        let r = m as int % d as int;
        assert(0 <= q && 2 * q <= m) by (nonlinear_arith)
            requires
                m >= 0,
                d >= 2,
                m == d * q + r,
                0 <= r < d,
        ;
    }
    if c >= 0 {
        q as i64
    } else {
        (-q) as i64
    }
}

/// The position of the chunk in the world.
/// 0, 0 is the middle
#[derive(Debug, Copy, Clone, Ord, PartialOrd, Eq, PartialEq, Structural, Hash)]
pub struct ChunkPosition {
    pub x: i32,
    pub y: i32,
}

impl ChunkPosition {
    pub fn new(x: i32, y: i32) -> (r: Self)
        ensures
            r.x == x,
            r.y == y,
    {
        ChunkPosition { x, y }
    }

    /// The chunk whose centre is nearest to `world`, axis by axis.
    pub open spec fn spec_from_world(
        chunk_size: ChunkSize,
        cell_size: CellSize,
        world: Vec2,
    ) -> (int, int) {
        (
            spec_nearest_line(world.hx as int, chunk_size.width * cell_size.width),
            spec_nearest_line(world.hy as int, chunk_size.height * cell_size.height),
        )
    }

    /// The chunk nearest to `world` has coordinates within `i32`.
    pub open spec fn spec_world_in_reach(
        chunk_size: ChunkSize,
        cell_size: CellSize,
        world: Vec2,
    ) -> bool {
        let at = Self::spec_from_world(chunk_size, cell_size, world);
        &&& i32::MIN <= at.0 <= i32::MAX
        &&& i32::MIN <= at.1 <= i32::MAX
    }

    /// Decides [`ChunkPosition::spec_world_in_reach`].
    pub fn world_in_reach(chunk_size: ChunkSize, cell_size: CellSize, world: Vec2) -> (b: bool)
        requires
            chunk_size.spec_fits_world(cell_size),
        ensures
            b == Self::spec_world_in_reach(chunk_size, cell_size, world),
    {
        let size = chunk_size.world_size(cell_size);
        let x = nearest_line(world.hx, size.hx / 2);
        let y = nearest_line(world.hy, size.hy / 2);
        -0x8000_0000 <= x && x <= 0x7fff_ffff && -0x8000_0000 <= y && y <= 0x7fff_ffff
    }

    /// Get the chunk position from a coordinate:
    ///
    /// Chunk `(0, 0)` is centred on the origin. A point on the boundary between
    /// two chunks belongs to the one farther from the origin.
    pub fn from_world(chunk_size: ChunkSize, cell_size: CellSize, world: Vec2) -> (r: Self)
        requires
            chunk_size.spec_fits_world(cell_size),
            Self::spec_world_in_reach(chunk_size, cell_size, world),
        ensures
            r.x == Self::spec_from_world(chunk_size, cell_size, world).0,
            r.y == Self::spec_from_world(chunk_size, cell_size, world).1,
    {
        let size = chunk_size.world_size(cell_size);

        // Half a chunk is added in the direction of each coordinate, to account
        // for centering the origin; dividing by the size then gives the position.
        let x = nearest_line(world.hx, size.hx / 2);
        let y = nearest_line(world.hy, size.hy / 2);

        ChunkPosition { x: i64_to_i32(x).unwrap(), y: i64_to_i32(y).unwrap() }
    }

    /// The center of the chunk in world coordinates
    pub open spec fn spec_to_world(self, chunk_size: ChunkSize, cell_size: CellSize) -> Vec2 {
        Vec2 {
            hx: (2 * (self.x * (chunk_size.width * cell_size.width))) as i64,
            hy: (2 * (self.y * (chunk_size.height * cell_size.height))) as i64,
        }
    }

    /// The center of the chunk in world coordinates
    pub fn to_world(&self, chunk_size: ChunkSize, cell_size: CellSize) -> (r: Vec2)
        requires
            chunk_size.spec_fits_world(cell_size),
        ensures
            r == self.spec_to_world(chunk_size, cell_size),
            r.hx == 2 * (self.x * (chunk_size.width * cell_size.width)),
            r.hy == 2 * (self.y * (chunk_size.height * cell_size.height)),
    {
        let world_size = chunk_size.world_size(cell_size);
        proof {
            lemma_product_bounds(self.x as int, chunk_size.width * cell_size.width);
            lemma_product_bounds(self.y as int, chunk_size.height * cell_size.height);
        }
        Vec2 { hx: (self.x as i64) * world_size.hx, hy: (self.y as i64) * world_size.hy }
    }

    pub fn as_vec2(&self) -> (r: Vec2)
        ensures
            r.hx == 2 * self.x,
            r.hy == 2 * self.y,
    {
        Vec2::new(self.x, self.y)
    }
}

/// The product of an `i32` and a world extent is exact in half units.
proof fn lemma_product_bounds(p: int, extent: int)
    requires
        i32::MIN <= p <= i32::MAX,
        0 < extent <= 0x7fff_ffff,
    ensures
        -0x8000_0000 * 0x7fff_ffff <= p * extent <= 0x7fff_ffff * 0x7fff_ffff,
        p * (2 * extent) == 2 * (p * extent),
{
    assert(-0x8000_0000 * 0x7fff_ffff <= p * extent <= 0x7fff_ffff * 0x7fff_ffff)
        by (nonlinear_arith)
        requires
            -0x8000_0000 <= p <= 0x7fff_ffff,
            0 < extent <= 0x7fff_ffff,
    ;
    assert(p * (2 * extent) == 2 * (p * extent)) by (nonlinear_arith);
}

/// The centre of a chunk lies in that chunk: the chunk of the world position
/// of chunk `p` is `p`.
pub proof fn lemma_world_round_trip(p: ChunkPosition, chunk_size: ChunkSize, cell_size: CellSize)
    requires
        chunk_size.spec_fits_world(cell_size),
    ensures
        ChunkPosition::spec_world_in_reach(
            chunk_size,
            cell_size,
            p.spec_to_world(chunk_size, cell_size),
        ),
        ChunkPosition::spec_from_world(
            chunk_size,
            cell_size,
            p.spec_to_world(chunk_size, cell_size),
        ) == (p.x as int, p.y as int),
{
    let ex = chunk_size.width * cell_size.width;
    let ey = chunk_size.height * cell_size.height;
    lemma_product_bounds(p.x as int, ex);
    lemma_product_bounds(p.y as int, ey);
    lemma_nearest_line_of_line(p.x as int, ex);
    lemma_nearest_line_of_line(p.y as int, ey);
}

impl std::ops::Add for ChunkPosition {
    type Output = Self;

    fn add(self, rhs: Self) -> (r: Self) {
        Self { x: self.x + rhs.x, y: self.y + rhs.y }
    }
}

impl vstd::std_specs::ops::AddSpecImpl for ChunkPosition {
    open spec fn obeys_add_spec() -> bool {
        true
    }

    open spec fn add_req(self, rhs: Self) -> bool {
        &&& i32::MIN <= self.x + rhs.x <= i32::MAX
        &&& i32::MIN <= self.y + rhs.y <= i32::MAX
    }

    open spec fn add_spec(self, rhs: Self) -> Self {
        ChunkPosition { x: (self.x + rhs.x) as i32, y: (self.y + rhs.y) as i32 }
    }
}

impl std::ops::Sub for ChunkPosition {
    type Output = Self;

    fn sub(self, rhs: Self) -> (r: Self) {
        Self { x: self.x - rhs.x, y: self.y - rhs.y }
    }
}

impl vstd::std_specs::ops::SubSpecImpl for ChunkPosition {
    open spec fn obeys_sub_spec() -> bool {
        true
    }

    open spec fn sub_req(self, rhs: Self) -> bool {
        &&& i32::MIN <= self.x - rhs.x <= i32::MAX
        &&& i32::MIN <= self.y - rhs.y <= i32::MAX
    }

    open spec fn sub_spec(self, rhs: Self) -> Self {
        ChunkPosition { x: (self.x - rhs.x) as i32, y: (self.y - rhs.y) as i32 }
    }
}

impl std::ops::AddAssign for ChunkPosition {
    fn add_assign(&mut self, rhs: Self)
        requires
            old(self).add_req(rhs),
        ensures
            *final(self) == old(self).add_spec(rhs),
    {
        *self = *self + rhs;
    }
}

impl std::ops::SubAssign for ChunkPosition {
    fn sub_assign(&mut self, rhs: Self)
        requires
            old(self).sub_req(rhs),
        ensures
            *final(self) == old(self).sub_spec(rhs),
    {
        *self = *self - rhs;
    }
}

impl From<(i32, i32)> for ChunkPosition {
    fn from(t: (i32, i32)) -> (r: Self) {
        Self { x: t.0, y: t.1 }
    }
}

impl vstd::std_specs::convert::FromSpecImpl<(i32, i32)> for ChunkPosition {
    open spec fn obeys_from_spec() -> bool {
        true
    }

    open spec fn from_spec(t: (i32, i32)) -> Self {
        ChunkPosition { x: t.0, y: t.1 }
    }
}

impl From<[i32; 2]> for ChunkPosition {
    fn from(a: [i32; 2]) -> (r: Self) {
        Self { x: a[0], y: a[1] }
    }
}

impl vstd::std_specs::convert::FromSpecImpl<[i32; 2]> for ChunkPosition {
    open spec fn obeys_from_spec() -> bool {
        true
    }

    open spec fn from_spec(a: [i32; 2]) -> Self {
        ChunkPosition { x: a@[0], y: a@[1] }
    }
}

impl From<&[i32; 2]> for ChunkPosition {
    fn from(a: &[i32; 2]) -> (r: Self) {
        Self { x: a[0], y: a[1] }
    }
}

impl vstd::std_specs::convert::FromSpecImpl<&[i32; 2]> for ChunkPosition {
    open spec fn obeys_from_spec() -> bool {
        true
    }

    open spec fn from_spec(a: &[i32; 2]) -> Self {
        ChunkPosition { x: a@[0], y: a@[1] }
    }
}

/// The position of a cell in a chunk.
/// 0, 0 is the middle
#[derive(Debug, Copy, Clone, Ord, PartialOrd, Eq, PartialEq, Structural, Hash)]
pub struct CellPosition {
    pub x: i32,
    pub y: i32,
}

/// A coordinate at most `reach` from the origin has its nearest line, for a
/// spacing of `extent`, at most `reach` lines from the origin.
proof fn lemma_nearest_line_bound(coord: int, extent: int, reach: int)
    requires
        0 < extent <= reach,
        -reach <= coord <= reach,
    ensures
        -reach <= spec_nearest_line(coord, extent) <= reach,
{
    let d = 2 * extent;
    let m = if coord >= 0 {
        coord + extent
    } else {
        -coord + extent
    };
    let q = m / d;
    let r = m % d;
    vstd::arithmetic::div_mod::lemma_fundamental_div_mod(m, d);
    vstd::arithmetic::div_mod::lemma_mod_bound(m, d);
    assert(0 <= q && 2 * q <= m) by (nonlinear_arith)
        requires
            m >= 0,
            d >= 2,
            m == d * q + r,
            0 <= r < d,
    ;
}

impl CellPosition {
    pub fn new(x: i32, y: i32) -> (r: Self)
        ensures
            r.x == x,
            r.y == y,
    {
        Self { x, y }
    }

    /// The cell nearest to `world`, counted from the centre of the chunk
    /// nearest to `world`.
    pub open spec fn spec_from_world(
        chunk_size: ChunkSize,
        cell_size: CellSize,
        world: Vec2,
    ) -> (int, int) {
        let chunk = ChunkPosition::spec_from_world(chunk_size, cell_size, world);
        (
            spec_nearest_line(
                world.hx - 2 * (chunk.0 * (chunk_size.width * cell_size.width)),
                cell_size.width as int,
            ),
            spec_nearest_line(
                world.hy - 2 * (chunk.1 * (chunk_size.height * cell_size.height)),
                cell_size.height as int,
            ),
        )
    }

    /// Finds the cell nearest to `world` within the chunk nearest to `world`.
    ///
    /// The offset of `world` from the centre of its chunk is divided by the
    /// cell size and rounded to the nearest whole number; an offset midway
    /// between two cells goes to the one farther from the centre.
    pub fn from_world(chunk_size: ChunkSize, cell_size: CellSize, world: Vec2) -> (r: CellPosition)
        requires
            chunk_size.spec_fits_world(cell_size),
            ChunkPosition::spec_world_in_reach(chunk_size, cell_size, world),
        ensures
            r.x == Self::spec_from_world(chunk_size, cell_size, world).0,
            r.y == Self::spec_from_world(chunk_size, cell_size, world).1,
    {
        let chunk: ChunkPosition = ChunkPosition::from_world(chunk_size, cell_size, world);
        let chunk_world = chunk.to_world(chunk_size, cell_size);
        let ghost ex = chunk_size.width * cell_size.width;
        let ghost ey = chunk_size.height * cell_size.height;
        proof {
            lemma_nearest_line_is_nearest(world.hx as int, ex);
            lemma_nearest_line_is_nearest(world.hy as int, ey);
            assert(0 < cell_size.width <= ex && 0 < cell_size.height <= ey) by (nonlinear_arith)
                requires
                    0 < chunk_size.width * cell_size.width,
                    0 < chunk_size.height * cell_size.height,
                    ex == chunk_size.width * cell_size.width,
                    ey == chunk_size.height * cell_size.height,
            ;
        }

        let offset_x: i64 = world.hx - chunk_world.hx;
        let offset_y: i64 = world.hy - chunk_world.hy;
        proof {
            lemma_nearest_line_bound(offset_x as int, cell_size.width as int, ex);
            lemma_nearest_line_bound(offset_y as int, cell_size.height as int, ey);
        }

        // Round the offset to the closest multiple of cell_size:
        let rounded_x = nearest_line(offset_x, cell_size.width as i64);
        let rounded_y = nearest_line(offset_y, cell_size.height as i64);

        CellPosition::new(i64_to_i32(rounded_x).unwrap(), i64_to_i32(rounded_y).unwrap())
    }
}

impl std::ops::Add for CellPosition {
    type Output = Self;

    fn add(self, rhs: Self) -> (r: Self) {
        Self { x: self.x + rhs.x, y: self.y + rhs.y }
    }
}

impl vstd::std_specs::ops::AddSpecImpl for CellPosition {
    open spec fn obeys_add_spec() -> bool {
        true
    }

    open spec fn add_req(self, rhs: Self) -> bool {
        &&& i32::MIN <= self.x + rhs.x <= i32::MAX
        &&& i32::MIN <= self.y + rhs.y <= i32::MAX
    }

    open spec fn add_spec(self, rhs: Self) -> Self {
        CellPosition { x: (self.x + rhs.x) as i32, y: (self.y + rhs.y) as i32 }
    }
}

impl std::ops::Sub for CellPosition {
    type Output = Self;

    fn sub(self, rhs: Self) -> (r: Self) {
        Self { x: self.x - rhs.x, y: self.y - rhs.y }
    }
}

impl vstd::std_specs::ops::SubSpecImpl for CellPosition {
    open spec fn obeys_sub_spec() -> bool {
        true
    }

    open spec fn sub_req(self, rhs: Self) -> bool {
        &&& i32::MIN <= self.x - rhs.x <= i32::MAX
        &&& i32::MIN <= self.y - rhs.y <= i32::MAX
    }

    open spec fn sub_spec(self, rhs: Self) -> Self {
        CellPosition { x: (self.x - rhs.x) as i32, y: (self.y - rhs.y) as i32 }
    }
}

impl std::ops::AddAssign for CellPosition {
    fn add_assign(&mut self, rhs: Self)
        requires
            old(self).add_req(rhs),
        ensures
            *final(self) == old(self).add_spec(rhs),
    {
        *self = *self + rhs;
    }
}

impl std::ops::SubAssign for CellPosition {
    fn sub_assign(&mut self, rhs: Self)
        requires
            old(self).sub_req(rhs),
        ensures
            *final(self) == old(self).sub_spec(rhs),
    {
        *self = *self - rhs;
    }
}

impl From<(i32, i32)> for CellPosition {
    fn from(t: (i32, i32)) -> (r: Self) {
        Self { x: t.0, y: t.1 }
    }
}

impl vstd::std_specs::convert::FromSpecImpl<(i32, i32)> for CellPosition {
    open spec fn obeys_from_spec() -> bool {
        true
    }

    open spec fn from_spec(t: (i32, i32)) -> Self {
        CellPosition { x: t.0, y: t.1 }
    }
}

impl From<[i32; 2]> for CellPosition {
    fn from(a: [i32; 2]) -> (r: Self) {
        Self { x: a[0], y: a[1] }
    }
}

impl vstd::std_specs::convert::FromSpecImpl<[i32; 2]> for CellPosition {
    open spec fn obeys_from_spec() -> bool {
        true
    }

    open spec fn from_spec(a: [i32; 2]) -> Self {
        CellPosition { x: a@[0], y: a@[1] }
    }
}

impl From<&[i32; 2]> for CellPosition {
    fn from(a: &[i32; 2]) -> (r: Self) {
        Self { x: a[0], y: a[1] }
    }
}

impl vstd::std_specs::convert::FromSpecImpl<&[i32; 2]> for CellPosition {
    open spec fn obeys_from_spec() -> bool {
        true
    }

    open spec fn from_spec(a: &[i32; 2]) -> Self {
        CellPosition { x: a@[0], y: a@[1] }
    }
}

} // verus!
