//! Geometry primitives of the board: points, sizes, axis-aligned
//! rectangles and velocities, with containment and distance queries.
//!
//! Coordinates live in the board plane, origin at the top-left corner,
//! x to the right and y down, in milli-units.

use vstd::prelude::*;

use crate::fixed::{cap_u128, clamp_val, sadd, sqrt_floor};
use crate::fixed::{clamp_i64, isqrt_u128, sat_add};

verus! {

/// Squared Euclidean distance, as a mathematical integer.
pub open spec fn dist2(ax: int, ay: int, bx: int, by: int) -> int {
    (ax - bx) * (ax - bx) + (ay - by) * (ay - by)
}

/// A position in board coordinates (milli-units).
#[derive(Clone, Copy, PartialEq, Eq, Structural, Debug)]
pub struct Point {
    pub x: i64,
    pub y: i64,
}

/// A board-plane velocity (milli-units per second).
#[derive(Clone, Copy, PartialEq, Eq, Structural, Debug)]
pub struct Velocity {
    pub x: i64,
    pub y: i64,
}

/// A width and height (milli-units); meaningful rectangles have both positive.
#[derive(Clone, Copy, PartialEq, Eq, Structural, Debug)]
pub struct Size {
    pub w: i64,
    pub h: i64,
}

/// An axis-aligned rectangle; `pos` is the top-left corner.
#[derive(Clone, Copy, PartialEq, Eq, Structural, Debug)]
pub struct Rect {
    pub pos: Point,
    pub size: Size,
}

/// Half-open containment: x in `[pos.x, pos.x + w)`, y in `[pos.y, pos.y + h)`,
/// so that adjacent rectangles never both contain a shared boundary point.
pub open spec fn rect_contains(r: Rect, px: int, py: int) -> bool {
    &&& px >= r.pos.x
    &&& px < sadd(r.pos.x as int, r.size.w as int)
    &&& py >= r.pos.y
    &&& py < sadd(r.pos.y as int, r.size.h as int)
}

impl Rect {
    /// Half-open containment test of a point.
    pub fn contains(&self, p: Point) -> (b: bool)
        ensures
            b == rect_contains(*self, p.x as int, p.y as int),
    {
        p.x >= self.pos.x && p.x < sat_add(self.pos.x, self.size.w) && p.y >= self.pos.y && p.y
            < sat_add(self.pos.y, self.size.h)
    }

    /// The point of the (filled) rectangle closest to `p`: the
    /// component-wise clamp of `p` into the rectangle.
    pub fn closest_point(&self, p: Point) -> (c: Point)
        ensures
            c.x as int == clamp_val(p.x as int, self.pos.x as int, sadd(self.pos.x as int, self.size.w as int)),
            c.y as int == clamp_val(p.y as int, self.pos.y as int, sadd(self.pos.y as int, self.size.h as int)),
    {
        Point {
            x: clamp_i64(p.x, self.pos.x, sat_add(self.pos.x, self.size.w)),
            y: clamp_i64(p.y, self.pos.y, sat_add(self.pos.y, self.size.h)),
        }
    }
}

/// Squared Euclidean distance between `a` and `b`, saturated at the
/// `u128` limit (which only matters for separations beyond any board).
pub fn dist2_capped(a: Point, b: Point) -> (r: u128)
    ensures
        r as int == cap_u128(dist2(a.x as int, a.y as int, b.x as int, b.y as int)),
{
    let dx: i128 = a.x as i128 - b.x as i128;
    let dy: i128 = a.y as i128 - b.y as i128;
    let ux: u128 = if dx < 0 {
        (-dx) as u128
    } else {
        dx as u128
    };
    let uy: u128 = if dy < 0 {
        (-dy) as u128
    } else {
        dy as u128
    };
    proof {
        assert((ux as int) * (ux as int) == (dx as int) * (dx as int) && (ux as int) * (ux as int)
            <= 0xffff_ffff_ffff_fffe_0000_0000_0000_0001int) by (nonlinear_arith)
            requires
                ux as int == (if (dx as int) < 0 { -(dx as int) } else { dx as int }),
                -0xffff_ffff_ffff_ffffint <= (dx as int) && (dx as int) <= 0xffff_ffff_ffff_ffffint,
        ;
        assert((uy as int) * (uy as int) == (dy as int) * (dy as int) && (uy as int) * (uy as int)
            <= 0xffff_ffff_ffff_fffe_0000_0000_0000_0001int) by (nonlinear_arith)
            requires
                uy as int == (if (dy as int) < 0 { -(dy as int) } else { dy as int }),
                -0xffff_ffff_ffff_ffffint <= (dy as int) && (dy as int) <= 0xffff_ffff_ffff_ffffint,
        ;
    }
    let sx: u128 = ux * ux;
    let sy: u128 = uy * uy;
    if sx > u128::MAX - sy {
        u128::MAX
    } else {
        sx + sy
    }
}

/// Euclidean distance between two points in milli-units, rounded down.
pub fn distance(a: Point, b: Point) -> (r: u64)
    ensures
        r as nat == sqrt_floor(cap_u128(dist2(a.x as int, a.y as int, b.x as int, b.y as int)) as nat),
{
    isqrt_u128(dist2_capped(a, b))
}

} // verus!
