//! The arena: the movement limits and the cell grid that follow from where the
//! walls stand and how thick they are.

use vstd::prelude::*;
use crate::constants::{
    LIMIT_SLACK, SNAKE_SIZE, WALL_BOTTOM, WALL_HEIGHT_OFFSET, WALL_LEFT, WALL_RIGHT,
    WALL_THICKNESS, WALL_TOP, WALL_WIDTH_OFFSET,
};
use crate::vector::{Point, Vector};

verus! {

pub open spec fn abs(v: int) -> int {
    if v < 0 {
        -v
    } else {
        v
    }
}

/// Where the walls stand, how thick they are, and the size of a cell.
#[derive(Clone, Copy, PartialEq, Eq, Structural, Debug)]
pub struct Arena {
    pub wall_left: i32,
    pub wall_right: i32,
    pub wall_top: i32,
    pub wall_bottom: i32,
    pub wall_thickness: i32,
    pub wall_width_offset: i32,
    pub wall_height_offset: i32,
    /// The side of a cell, which is the distance of one step.
    pub snake_size: i32,
}

impl Arena {
    /// The side of a cell.
    pub open spec fn unit(self) -> int {
        self.snake_size as int
    }

    pub open spec fn half_unit(self) -> int {
        self.unit() / 2
    }

    /// The least x that the head may have.
    pub open spec fn x_min(self) -> int {
        self.wall_left + self.wall_width_offset + self.wall_thickness + self.half_unit()
            - LIMIT_SLACK
    }

    /// The greatest x that the head may have.
    pub open spec fn x_max(self) -> int {
        self.wall_right + self.wall_width_offset - self.wall_thickness - self.half_unit()
            + LIMIT_SLACK
    }

    /// The least y that the head may have.
    pub open spec fn y_min(self) -> int {
        self.wall_bottom + self.wall_height_offset + self.wall_thickness + self.half_unit()
            - LIMIT_SLACK
    }

    /// The greatest y that the head may have.
    pub open spec fn y_max(self) -> int {
        self.wall_top + self.wall_height_offset - self.wall_thickness - self.half_unit()
            + LIMIT_SLACK
    }

    /// The width that the cells share: the distances of the two side walls
    /// from the origin, less one wall's thickness.
    pub open spec fn span_x(self) -> int {
        abs(self.wall_right as int) + abs(self.wall_left as int) - self.wall_thickness
    }

    pub open spec fn span_y(self) -> int {
        abs(self.wall_top as int) + abs(self.wall_bottom as int) - self.wall_thickness
    }

    /// The number of columns of cells.
    pub open spec fn cells_x(self) -> int {
        self.span_x() / self.unit()
    }

    /// The number of rows of cells.
    pub open spec fn cells_y(self) -> int {
        self.span_y() / self.unit()
    }

    /// The centre of the cell in column `cx` and row `cy`, counted from the
    /// lower left corner.
    pub open spec fn cell_position(self, cx: int, cy: int) -> Point {
        Point { x: self.x_min() + cx * self.unit(), y: self.y_min() + cy * self.unit() }
    }

    /// Within the four movement limits, the limits included.
    pub open spec fn in_bounds(self, p: Point) -> bool {
        self.x_min() <= p.x <= self.x_max() && self.y_min() <= p.y <= self.y_max()
    }

    /// On the centre of a cell of the grid, inside the arena or beyond it.
    pub open spec fn on_grid(self, p: Point) -> bool {
        (p.x - self.x_min()) % self.unit() == 0 && (p.y - self.y_min()) % self.unit() == 0
    }

    /// Where the head starts: half a cell left of the origin.
    pub open spec fn head_start(self) -> Point {
        Point { x: -self.half_unit(), y: 0 }
    }

    /// A usable arena: cells of a positive, even size; walls apart from each
    /// other; at least one cell each way, all cells within the movement
    /// limits; and the head's start within them too.
    pub open spec fn wf(self) -> bool {
        &&& self.snake_size > 0
        &&& self.snake_size % 2 == 0
        &&& self.wall_thickness >= 0
        &&& self.wall_left < self.wall_right
        &&& self.wall_bottom < self.wall_top
        &&& self.span_x() >= self.unit()
        &&& self.span_y() >= self.unit()
        &&& (self.cells_x() - 1) * self.unit() <= self.x_max() - self.x_min()
        &&& (self.cells_y() - 1) * self.unit() <= self.y_max() - self.y_min()
        &&& self.in_bounds(self.head_start())
    }

    /// The arena of the standard game.
    pub fn standard() -> (a: Arena)
        ensures
            a.wall_left == WALL_LEFT,
            a.wall_right == WALL_RIGHT,
            a.wall_top == WALL_TOP,
            a.wall_bottom == WALL_BOTTOM,
            a.wall_thickness == WALL_THICKNESS,
            a.wall_width_offset == WALL_WIDTH_OFFSET,
            a.wall_height_offset == WALL_HEIGHT_OFFSET,
            a.snake_size == SNAKE_SIZE,
            a.wf(),
            a.x_min() == -420,
            a.x_max() == 420,
            a.y_min() == -280,
            a.y_max() == 200,
            a.cells_x() == 22,
            a.cells_y() == 13,
    {
        Arena {
            wall_left: WALL_LEFT,
            wall_right: WALL_RIGHT,
            wall_top: WALL_TOP,
            wall_bottom: WALL_BOTTOM,
            wall_thickness: WALL_THICKNESS,
            wall_width_offset: WALL_WIDTH_OFFSET,
            wall_height_offset: WALL_HEIGHT_OFFSET,
            snake_size: SNAKE_SIZE,
        }
    }

    /// Whether the arena is usable.
    pub fn is_valid(&self) -> (b: bool)
        ensures
            b == self.wf(),
    {
        if self.snake_size <= 0 || self.snake_size % 2 != 0 || self.wall_thickness < 0
            || self.wall_left >= self.wall_right || self.wall_bottom >= self.wall_top {
            return false;
        }
        let unit: i64 = self.snake_size as i64;
        let span_x: i64 = magnitude(self.wall_right) + magnitude(self.wall_left)
            - self.wall_thickness as i64;
        let span_y: i64 = magnitude(self.wall_top) + magnitude(self.wall_bottom)
            - self.wall_thickness as i64;
        if span_x < unit || span_y < unit {
            return false;
        }
        let cells_x: i64 = span_x / unit;
        let cells_y: i64 = span_y / unit;
        proof {
            lemma_quotient_bounds(span_x as int, unit as int);
            lemma_quotient_bounds(span_y as int, unit as int);
        }
        let half: i64 = unit / 2;
        let slack: i64 = LIMIT_SLACK as i64;
        let x_min: i64 = self.wall_left as i64 + self.wall_width_offset as i64
            + self.wall_thickness as i64 + half - slack;
        let x_max: i64 = self.wall_right as i64 + self.wall_width_offset as i64
            - self.wall_thickness as i64 - half + slack;
        let y_min: i64 = self.wall_bottom as i64 + self.wall_height_offset as i64
            + self.wall_thickness as i64 + half - slack;
        let y_max: i64 = self.wall_top as i64 + self.wall_height_offset as i64
            - self.wall_thickness as i64 - half + slack;
        (cells_x - 1) * unit <= x_max - x_min && (cells_y - 1) * unit <= y_max - y_min
            && x_min <= -half && -half <= x_max && y_min <= 0 && 0 <= y_max
    }

    /// The side of a cell.
    pub fn cell_size(&self) -> (u: i64)
        ensures
            u == self.unit(),
    {
        self.snake_size as i64
    }

    /// The four movement limits: least x, greatest x, least y, greatest y.
    pub fn limits(&self) -> (l: (i64, i64, i64, i64))
        requires
            self.wf(),
        ensures
            l.0 == self.x_min(),
            l.1 == self.x_max(),
            l.2 == self.y_min(),
            l.3 == self.y_max(),
    {
        let half: i64 = (self.snake_size / 2) as i64;
        let slack: i64 = LIMIT_SLACK as i64;
        let x_min: i64 = self.wall_left as i64 + self.wall_width_offset as i64
            + self.wall_thickness as i64 + half - slack;
        let x_max: i64 = self.wall_right as i64 + self.wall_width_offset as i64
            - self.wall_thickness as i64 - half + slack;
        let y_min: i64 = self.wall_bottom as i64 + self.wall_height_offset as i64
            + self.wall_thickness as i64 + half - slack;
        let y_max: i64 = self.wall_top as i64 + self.wall_height_offset as i64
            - self.wall_thickness as i64 - half + slack;
        (x_min, x_max, y_min, y_max)
    }

    /// The numbers of columns and of rows of cells.
    pub fn cell_counts(&self) -> (c: (i64, i64))
        requires
            self.wf(),
        ensures
            c.0 == self.cells_x(),
            c.1 == self.cells_y(),
            c.0 >= 1,
            c.1 >= 1,
    {
        let unit: i64 = self.snake_size as i64;
        let span_x: i64 = magnitude(self.wall_right) + magnitude(self.wall_left)
            - self.wall_thickness as i64;
        let span_y: i64 = magnitude(self.wall_top) + magnitude(self.wall_bottom)
            - self.wall_thickness as i64;
        proof {
            lemma_quotient_bounds(span_x as int, unit as int);
            lemma_quotient_bounds(span_y as int, unit as int);
        }
        (span_x / unit, span_y / unit)
    }

    /// Whether `p` lies within the four movement limits.
    pub fn contains(&self, p: Vector) -> (b: bool)
        requires
            self.wf(),
        ensures
            b == self.in_bounds(p@),
    {
        let l = self.limits();
        !(p.x > l.1 || p.x < l.0 || p.y > l.3 || p.y < l.2)
    }

    /// The centre of the cell in column `cx` and row `cy`.
    pub fn cell_center(&self, cx: i64, cy: i64) -> (p: Vector)
        requires
            self.wf(),
            0 <= cx < self.cells_x(),
            0 <= cy < self.cells_y(),
        ensures
            p@ == self.cell_position(cx as int, cy as int),
            self.in_bounds(p@),
            self.on_grid(p@),
    {
        let l = self.limits();
        let unit: i64 = self.snake_size as i64;
        proof {
            self.lemma_cells_lie_inside(cx as int, cy as int);
        }
        Vector { x: l.0 + cx * unit, y: l.2 + cy * unit }
    }

    /// Every cell of the grid lies within the movement limits and on the grid.
    pub proof fn lemma_cells_lie_inside(self, cx: int, cy: int)
        requires
            self.wf(),
            0 <= cx < self.cells_x(),
            0 <= cy < self.cells_y(),
        ensures
            self.in_bounds(self.cell_position(cx, cy)),
            self.on_grid(self.cell_position(cx, cy)),
            0 <= cx * self.unit() <= self.x_max() - self.x_min(),
            0 <= cy * self.unit() <= self.y_max() - self.y_min(),
    {
        let u = self.unit();
        assert(0 <= cx * u <= (self.cells_x() - 1) * u) by (nonlinear_arith)
            requires
                0 <= cx <= self.cells_x() - 1,
                u > 0,
        ;
        assert(0 <= cy * u <= (self.cells_y() - 1) * u) by (nonlinear_arith)
            requires
                0 <= cy <= self.cells_y() - 1,
                u > 0,
        ;
        vstd::arithmetic::div_mod::lemma_mod_multiples_basic(cx, u);
        vstd::arithmetic::div_mod::lemma_mod_multiples_basic(cy, u);
    }
}

/// The distance of a coordinate from the origin.
pub fn magnitude(v: i32) -> (m: i64)
    ensures
        m == abs(v as int),
{
    if v < 0 {
        -(v as i64)
    } else {
        v as i64
    }
}

/// A quotient of a number by a positive one lies between 0 and the number,
/// and its multiple by the divisor does not pass the number.
pub proof fn lemma_quotient_bounds(n: int, d: int)
    requires
        n >= 0,
        d > 0,
    ensures
        0 <= n / d <= n,
        (n / d) * d <= n,
        n >= d ==> n / d >= 1,
        (n / d - 1) * d <= n,
{
    vstd::arithmetic::div_mod::lemma_fundamental_div_mod(n, d);
    vstd::arithmetic::div_mod::lemma_div_pos_is_pos(n, d);
    vstd::arithmetic::div_mod::lemma_mod_bound(n, d);
    let q = n / d;
    assert(d * q == q * d) by (nonlinear_arith);
    assert(q <= q * d) by (nonlinear_arith)
        requires
            q >= 0,
            d >= 1,
    ;
    assert((q - 1) * d <= q * d) by (nonlinear_arith)
        requires
            d > 0,
    ;
    if n >= d && q < 1 {
        assert(q * d == 0) by (nonlinear_arith)
            requires
                q == 0,
        ;
    }
}

} // verus!
