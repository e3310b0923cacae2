//! Points of the plane in fixed point.

use vstd::prelude::*;

verus! {

/// A point or offset of the plane, exact to half a world unit.
///
/// Both coordinates count half units, so the centre of a box with whole-unit
/// sides and the midpoint of a whole-unit edge are held without rounding.
#[derive(Clone, Copy, Debug, PartialEq, Eq, Structural, Hash)]
pub struct Vec2 {
    /// Horizontal coordinate, in half units.
    pub hx: i64,
    /// Vertical coordinate, in half units.
    pub hy: i64,
}

impl Vec2 {
    /// The point at `(x, y)` whole world units.
    pub fn new(x: i32, y: i32) -> (r: Vec2)
        ensures
            r.hx == 2 * x,
            r.hy == 2 * y,
    {
        Vec2 { hx: 2 * (x as i64), hy: 2 * (y as i64) }
    }

    /// The point at `(hx / 2, hy / 2)` world units.
    pub fn from_halves(hx: i64, hy: i64) -> (r: Vec2)
        ensures
            r.hx == hx,
            r.hy == hy,
    {
        Vec2 { hx, hy }
    }

    /// Whether both coordinates are whole world units.
    pub open spec fn spec_is_whole(self) -> bool {
        self.hx % 2 == 0 && self.hy % 2 == 0
    }

    /// Whether both coordinates are whole world units.
    #[verifier::when_used_as_spec(spec_is_whole)]
    pub fn is_whole(self) -> (b: bool)
        ensures
            b == self.spec_is_whole(),
    {
        self.hx % 2 == 0 && self.hy % 2 == 0
    }
}

} // verus!
