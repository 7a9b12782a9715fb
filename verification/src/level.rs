//! The static description of a single board: its size, the ball's
//! start point, the goal rectangle, the walls and the holes.
//!
//! A `Level` is built once by `Level::new`, which rejects malformed
//! descriptions (non-positive sizes, coordinates beyond the fixed-point
//! working range), and is never mutated afterwards.

use vstd::prelude::*;

use crate::geom::{Point, Rect, Size};

verus! {

/// Largest coordinate magnitude (milli-units) a level may use. Keeping
/// level data well inside the `i64` range lets the physics step work
/// without hitting the saturation limits of the fixed-point arithmetic.
pub const COORD_LIMIT: i64 = 1_000_000_000_000;

/// A rejected level description, by the first malformed field.
#[derive(Clone, Copy, PartialEq, Eq, Structural, Debug)]
pub enum LevelError {
    /// The board size is not positive or is out of range.
    BadBoardSize,
    /// The start point is out of range.
    BadStart,
    /// The goal rectangle is malformed or out of range.
    BadGoal,
    /// Some wall rectangle is malformed or out of range.
    BadWall,
    /// Some hole centre is out of range.
    BadHole,
}

/// A size fit for a level: positive and within the working range.
pub open spec fn size_ok(s: Size) -> bool {
    0 < s.w <= COORD_LIMIT && 0 < s.h <= COORD_LIMIT
}

/// A point fit for a level: within the working range.
pub open spec fn point_ok(p: Point) -> bool {
    -COORD_LIMIT <= p.x <= COORD_LIMIT && -COORD_LIMIT <= p.y <= COORD_LIMIT
}

/// A rectangle fit for a level: corner in range, size positive and in range.
pub open spec fn rect_ok(r: Rect) -> bool {
    point_ok(r.pos) && size_ok(r.size)
}

/// Holds the information about a single labyrinth level. The level
/// coordinate system origin is in the top-left corner of the board;
/// positive x goes right and positive y goes down.
pub struct Level {
    pub name: String,
    pub size: Size,
    pub start: Point,
    pub end: Rect,
    pub walls: Vec<Rect>,
    pub holes: Vec<Point>,
}

impl Level {
    /// Every field of a constructed level is within the working range.
    pub open spec fn wf(&self) -> bool {
        &&& size_ok(self.size)
        &&& point_ok(self.start)
        &&& rect_ok(self.end)
        &&& forall|i: int| 0 <= i < self.walls@.len() ==> rect_ok(#[trigger] self.walls@[i])
        &&& forall|i: int| 0 <= i < self.holes@.len() ==> point_ok(#[trigger] self.holes@[i])
    }

    /// Build a level from plain values, rejecting malformed input.
    /// Succeeds exactly when every field is well-formed; on success the
    /// level holds the given values unchanged.
    pub fn new(name: String, size: Size, start: Point, end: Rect, walls: Vec<Rect>, holes: Vec<
        Point,
    >) -> (r: Result<Level, LevelError>)
        ensures
            r is Ok <==> {
                &&& size_ok(size)
                &&& point_ok(start)
                &&& rect_ok(end)
                &&& forall|i: int| 0 <= i < walls@.len() ==> rect_ok(#[trigger] walls@[i])
                &&& forall|i: int| 0 <= i < holes@.len() ==> point_ok(#[trigger] holes@[i])
            },
            r matches Ok(l) ==> {
                &&& l.name == name
                &&& l.size == size
                &&& l.start == start
                &&& l.end == end
                &&& l.walls == walls
                &&& l.holes == holes
                &&& l.wf()
            },
            r matches Err(e) ==> e == first_level_fault(size, start, end, walls@, holes@),
    {
        if !(size.w > 0 && size.w <= COORD_LIMIT && size.h > 0 && size.h <= COORD_LIMIT) {
            return Err(LevelError::BadBoardSize);
        }
        if !point_in_range(start) {
            return Err(LevelError::BadStart);
        }
        if !rect_in_range(&end) {
            return Err(LevelError::BadGoal);
        }
        let mut i: usize = 0;
        while i < walls.len()
            invariant
                0 <= i <= walls@.len(),
                forall|j: int| 0 <= j < i ==> rect_ok(#[trigger] walls@[j]),
                size_ok(size),
                point_ok(start),
                rect_ok(end),
            decreases walls@.len() - i,
        {
            if !rect_in_range(&walls[i]) {
                proof {
                    assert(!rect_ok(walls@[i as int]));
                }
                return Err(LevelError::BadWall);
            }
            i = i + 1;
        }
        let mut k: usize = 0;
        while k < holes.len()
            invariant
                0 <= k <= holes@.len(),
                forall|j: int| 0 <= j < walls@.len() ==> rect_ok(#[trigger] walls@[j]),
                forall|j: int| 0 <= j < k ==> point_ok(#[trigger] holes@[j]),
                size_ok(size),
                point_ok(start),
                rect_ok(end),
            decreases holes@.len() - k,
        {
            if !point_in_range(holes[k]) {
                return Err(LevelError::BadHole);
            }
            k = k + 1;
        }
        Ok(Level { name, size, start, end, walls, holes })
    }
}

/// The error that `Level::new` reports for a malformed description:
/// the first field, in validation order, that is out of shape.
pub open spec fn first_level_fault(
    size: Size,
    start: Point,
    end: Rect,
    walls: Seq<Rect>,
    holes: Seq<Point>,
) -> LevelError {
    if !size_ok(size) {
        LevelError::BadBoardSize
    } else if !point_ok(start) {
        LevelError::BadStart
    } else if !rect_ok(end) {
        LevelError::BadGoal
    } else if exists|i: int| 0 <= i < walls.len() && !rect_ok(#[trigger] walls[i]) {
        LevelError::BadWall
    } else {
        LevelError::BadHole
    }
}

/// Range check of one point.
fn point_in_range(p: Point) -> (b: bool)
    ensures
        b == point_ok(p),
{
    -COORD_LIMIT <= p.x && p.x <= COORD_LIMIT && -COORD_LIMIT <= p.y && p.y <= COORD_LIMIT
}

/// Range check of one rectangle.
fn rect_in_range(r: &Rect) -> (b: bool)
    ensures
        b == rect_ok(*r),
{
    point_in_range(r.pos) && r.size.w > 0 && r.size.w <= COORD_LIMIT && r.size.h > 0 && r.size.h
        <= COORD_LIMIT
}

} // verus!
