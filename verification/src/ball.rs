//! Grid coordinates and the circular sources placed among them.

use vstd::prelude::*;

verus! {

/// A point of the integer lattice.
#[derive(Clone, Copy, Debug, PartialEq, Eq, Structural)]
pub struct Coord {
    pub x: i32,
    pub y: i32,
}

/// A circular source of the field: where it sits and how far it reaches.
/// The radius is the integer that was drawn for it.
#[derive(Clone, Copy, Debug, PartialEq, Eq, Structural)]
pub struct MetaBall {
    pub center: Coord,
    pub radius: i32,
}

/// The squared Euclidean distance between two lattice points.
pub open spec fn dist_sqr_of(a: Coord, b: Coord) -> int {
    (a.x - b.x) * (a.x - b.x) + (a.y - b.y) * (a.y - b.y)
}

/// The ball centred on `(x, y)` with radius `r`.
pub open spec fn ball_at(x: i32, y: i32, r: i32) -> MetaBall {
    MetaBall { center: Coord { x, y }, radius: r }
}

/// A squared distance is zero for a point and itself, and for no other pair.
pub proof fn lemma_dist_sqr_zero(a: Coord, b: Coord)
    ensures
        dist_sqr_of(a, b) >= 0,
        dist_sqr_of(a, b) == 0 <==> a == b,
{
    let dx: int = a.x - b.x;
    let dy: int = a.y - b.y;
    assert(dx * dx >= 0 && (dx * dx == 0 <==> dx == 0)) by (nonlinear_arith);
    assert(dy * dy >= 0 && (dy * dy == 0 <==> dy == 0)) by (nonlinear_arith);
}

impl Coord {
    /// The squared distance from `self` to `other`, exact for every pair of
    /// points: the result is wide enough for the two farthest corners of the
    /// `i32` lattice.
    pub fn dist_sqr(&self, other: &Coord) -> (d: u128)
        ensures
            d as int == dist_sqr_of(*self, *other),
    {
        let dx: i128 = self.x as i128 - other.x as i128;
        let dy: i128 = self.y as i128 - other.y as i128;
        assert(0 <= dx * dx <= 0x1_0000_0000_0000_0000) by (nonlinear_arith)
            requires
                -0x1_0000_0000 <= dx <= 0x1_0000_0000,
        ;
        assert(0 <= dy * dy <= 0x1_0000_0000_0000_0000) by (nonlinear_arith)
            requires
                -0x1_0000_0000 <= dy <= 0x1_0000_0000,
        ;
        (dx * dx + dy * dy) as u128
    }
}

impl MetaBall {
    /// The ball centred on `(x, y)` with radius `r`.
    pub fn new(x: i32, y: i32, r: i32) -> (ball: MetaBall)
        ensures
            ball == ball_at(x, y, r),
    {
        MetaBall { center: Coord { x, y }, radius: r }
    }
}

} // verus!
