//! Points, sizes and rectangles in logical coordinates.
//!
//! The output scale is fixed at 1, so logical and physical coordinates coincide.

use vstd::prelude::*;

verus! {

/// A position.
#[derive(Debug, Clone, Copy, PartialEq, Eq, Structural)]
pub struct Point {
    pub x: i32,
    pub y: i32,
}

/// An extent.
#[derive(Debug, Clone, Copy, PartialEq, Eq, Structural)]
pub struct Size {
    pub w: i32,
    pub h: i32,
}

/// A place with an extent.
#[derive(Debug, Clone, Copy, PartialEq, Eq, Structural)]
pub struct Rectangle {
    pub loc: Point,
    pub size: Size,
}

/// `n`, or the nearest number that fits.
pub open spec fn saturate(n: int) -> i32 {
    if n > i32::MAX {
        i32::MAX
    } else if n < i32::MIN {
        i32::MIN
    } else {
        n as i32
    }
}

fn saturated(n: i64) -> (fit: i32)
    ensures
        fit == saturate(n as int),
{
    if n > i32::MAX as i64 {
        i32::MAX
    } else if n < i32::MIN as i64 {
        i32::MIN
    } else {
        n as i32
    }
}

impl Point {
    /// The point where both axes meet.
    pub open spec fn zero() -> Point {
        Point { x: 0, y: 0 }
    }

    /// The sum of two points, saturating on each axis.
    pub open spec fn sum(self, other: Point) -> Point {
        Point { x: saturate(self.x + other.x), y: saturate(self.y + other.y) }
    }

    /// The difference of two points, saturating on each axis.
    pub open spec fn difference(self, other: Point) -> Point {
        Point { x: saturate(self.x - other.x), y: saturate(self.y - other.y) }
    }

    /// The point where both axes meet.
    pub fn origin() -> (origin: Point)
        ensures
            origin == Point::zero(),
    {
        Point { x: 0, y: 0 }
    }

    /// `self` moved by `other`, saturating on each axis.
    pub fn plus(self, other: Point) -> (moved: Point)
        ensures
            moved == self.sum(other),
    {
        Point {
            x: saturated(self.x as i64 + other.x as i64),
            y: saturated(self.y as i64 + other.y as i64),
        }
    }

    /// `self` moved back by `other`, saturating on each axis.
    pub fn minus(self, other: Point) -> (moved: Point)
        ensures
            moved == self.difference(other),
    {
        Point {
            x: saturated(self.x as i64 - other.x as i64),
            y: saturated(self.y as i64 - other.y as i64),
        }
    }
}

} // verus!
