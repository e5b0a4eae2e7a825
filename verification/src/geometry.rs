//! Fixed-point coordinates and the segments drawn with them.

use vstd::prelude::*;

verus! {

/// Number of fractional bits of a coordinate.
pub const FRAC_BITS: u32 = 16;

/// The coordinate value that stands for `1.0`.
pub const ONE: i32 = 65536;

/// The coordinate value that stands for `0.5`.
pub const HALF: i32 = 32768;

/// A point of the drawing plane: `x` is time, `y` is pitch, both in units of
/// `1 / ONE`.
#[derive(Clone, Copy, PartialEq, Eq, Debug, Structural)]
pub struct Point {
    pub x: i32,
    pub y: i32,
}

/// A straight segment between two points, as recorded by one pointer movement.
#[derive(Clone, Copy, PartialEq, Eq, Debug, Structural)]
pub struct Line {
    pub start: Point,
    pub end: Point,
}

impl Point {
    pub fn new(x: i32, y: i32) -> (p: Point)
        ensures
            p.x == x,
            p.y == y,
    {
        Point { x, y }
    }
}

impl Line {
    /// The earliest time the segment touches.
    pub open spec fn lo(self) -> int {
        if self.start.x <= self.end.x {
            self.start.x as int
        } else {
            self.end.x as int
        }
    }

    /// The latest time the segment touches.
    pub open spec fn hi(self) -> int {
        if self.start.x >= self.end.x {
            self.start.x as int
        } else {
            self.end.x as int
        }
    }

    pub fn new(start: Point, end: Point) -> (l: Line)
        ensures
            l.start == start,
            l.end == end,
    {
        Line { start, end }
    }

    /// Executable form of [`Line::lo`].
    pub fn earliest(&self) -> (x: i32)
        ensures
            x == self.lo(),
    {
        if self.start.x <= self.end.x {
            self.start.x
        } else {
            self.end.x
        }
    }

    /// Executable form of [`Line::hi`].
    pub fn latest(&self) -> (x: i32)
        ensures
            x == self.hi(),
    {
        if self.start.x >= self.end.x {
            self.start.x
        } else {
            self.end.x
        }
    }
}

/// The larger of two coordinates.
pub fn max_coord(a: i32, b: i32) -> (r: i32)
    ensures
        r == if a >= b { a } else { b },
{
    if a >= b {
        a
    } else {
        b
    }
}

/// The smaller of two coordinates.
pub fn min_coord(a: i32, b: i32) -> (r: i32)
    ensures
        r == if a <= b { a } else { b },
{
    if a <= b {
        a
    } else {
        b
    }
}

} // verus!
