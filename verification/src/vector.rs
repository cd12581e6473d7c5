//! Integer points of the plane: the model (`Point`) and the machine value (`Vector`).

use vstd::prelude::*;

verus! {

/// A point of the plane, or the displacement between two points.
pub struct Point {
    pub x: int,
    pub y: int,
}

impl Point {
    pub open spec fn plus(self, d: Point) -> Point {
        Point { x: self.x + d.x, y: self.y + d.y }
    }

    pub open spec fn minus(self, d: Point) -> Point {
        Point { x: self.x - d.x, y: self.y - d.y }
    }

    pub open spec fn scale(self, k: int) -> Point {
        Point { x: self.x * k, y: self.y * k }
    }

    /// The square of the Euclidean length.
    pub open spec fn norm_sq(self) -> int {
        self.x * self.x + self.y * self.y
    }

    /// The length along the axes (the taxicab length).
    pub open spec fn reach(self) -> int {
        (if self.x < 0 { -self.x } else { self.x }) + (if self.y < 0 { -self.y } else { self.y })
    }
}

/// A point with machine coordinates. Its view is the `Point` with the same coordinates.
#[derive(Clone, Copy, PartialEq, Eq, Structural, Debug)]
pub struct Vector {
    pub x: i64,
    pub y: i64,
}

impl View for Vector {
    type V = Point;

    open spec fn view(&self) -> Point {
        Point { x: self.x as int, y: self.y as int }
    }
}

impl Vector {
    pub fn new(x: i64, y: i64) -> (v: Vector)
        ensures
            v.x == x,
            v.y == y,
    {
        Vector { x, y }
    }

    /// Whether this is one of the four unit vectors along an axis.
    pub fn is_cardinal(&self) -> (b: bool)
        ensures
            b == crate::direction::is_cardinal(self@),
    {
        (self.x == 0 && (self.y == 1 || self.y == -1))
            || (self.y == 0 && (self.x == 1 || self.x == -1))
    }
}

} // verus!
