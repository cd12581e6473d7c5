//! The four directions of movement, their unit vectors and their rotations.

use vstd::prelude::*;
use crate::vector::{Point, Vector};

verus! {

/// A unit vector along one axis: exactly one coordinate is non-zero, and it is 1 or -1.
pub open spec fn is_cardinal(p: Point) -> bool {
    (p.x == 0 && (p.y == 1 || p.y == -1)) || (p.y == 0 && (p.x == 1 || p.x == -1))
}

/// A rotation about the axis that leaves the plane, in quarter turns counter-clockwise.
#[derive(Clone, Copy, PartialEq, Eq, Structural, Debug)]
pub enum Rotation {
    Deg0,
    Deg90,
    Deg180,
    Deg270,
}

impl Rotation {
    /// The number of quarter turns, from 0 to 3.
    pub open spec fn turns(self) -> int {
        match self {
            Rotation::Deg0 => 0,
            Rotation::Deg90 => 1,
            Rotation::Deg180 => 2,
            Rotation::Deg270 => 3,
        }
    }

    /// The number of quarter turns, from 0 to 3.
    pub fn quarter_turns(self) -> (n: u8)
        ensures
            n == self.turns(),
    {
        match self {
            Rotation::Deg0 => 0,
            Rotation::Deg90 => 1,
            Rotation::Deg180 => 2,
            Rotation::Deg270 => 3,
        }
    }

    /// The angle in degrees: 0, 90, 180 or 270.
    pub fn degrees(self) -> (d: u16)
        ensures
            d == 90 * self.turns(),
    {
        match self {
            Rotation::Deg0 => 0,
            Rotation::Deg90 => 90,
            Rotation::Deg180 => 180,
            Rotation::Deg270 => 270,
        }
    }
}

/// A direction of movement.
#[derive(Clone, Copy, PartialEq, Eq, Structural, Debug)]
pub enum SnakeMovement {
    Up,
    Down,
    Left,
    Right,
}

impl SnakeMovement {
    /// The unit vector of the direction.
    pub open spec fn offset(self) -> Point {
        match self {
            SnakeMovement::Up => Point { x: 0, y: 1 },
            SnakeMovement::Down => Point { x: 0, y: -1 },
            SnakeMovement::Left => Point { x: -1, y: 0 },
            SnakeMovement::Right => Point { x: 1, y: 0 },
        }
    }

    /// The rotation of something that faces this way: `Right` is no rotation,
    /// and the angle grows counter-clockwise.
    pub open spec fn spec_facing(self) -> Rotation {
        match self {
            SnakeMovement::Up => Rotation::Deg90,
            SnakeMovement::Down => Rotation::Deg270,
            SnakeMovement::Left => Rotation::Deg180,
            SnakeMovement::Right => Rotation::Deg0,
        }
    }

    /// The rotation of a corner piece that turns left into this direction:
    /// a quarter turn further than `spec_facing`.
    pub open spec fn spec_left_corner(self) -> Rotation {
        match self {
            SnakeMovement::Up => Rotation::Deg180,
            SnakeMovement::Down => Rotation::Deg0,
            SnakeMovement::Left => Rotation::Deg270,
            SnakeMovement::Right => Rotation::Deg90,
        }
    }

    /// The direction whose unit vector is `direction`.
    pub fn from_direction(direction: Vector) -> (m: SnakeMovement)
        requires
            is_cardinal(direction@),
        ensures
            m.offset() == direction@,
    {
        if direction.y == 1 {
            SnakeMovement::Up
        } else if direction.y == -1 {
            SnakeMovement::Down
        } else if direction.x == -1 {
            SnakeMovement::Left
        } else {
            SnakeMovement::Right
        }
    }

    /// The unit vector of the direction.
    pub fn to_direction(&self) -> (v: Vector)
        ensures
            v@ == self.offset(),
    {
        match self {
            SnakeMovement::Up => Vector { x: 0, y: 1 },
            SnakeMovement::Down => Vector { x: 0, y: -1 },
            SnakeMovement::Left => Vector { x: -1, y: 0 },
            SnakeMovement::Right => Vector { x: 1, y: 0 },
        }
    }

    #[verifier::when_used_as_spec(spec_facing)]
    pub fn facing(self) -> (r: Rotation)
        ensures
            r == self.spec_facing(),
    {
        match self {
            SnakeMovement::Up => Rotation::Deg90,
            SnakeMovement::Down => Rotation::Deg270,
            SnakeMovement::Left => Rotation::Deg180,
            SnakeMovement::Right => Rotation::Deg0,
        }
    }

    #[verifier::when_used_as_spec(spec_left_corner)]
    pub fn left_corner(self) -> (r: Rotation)
        ensures
            r == self.spec_left_corner(),
    {
        match self {
            SnakeMovement::Up => Rotation::Deg180,
            SnakeMovement::Down => Rotation::Deg0,
            SnakeMovement::Left => Rotation::Deg270,
            SnakeMovement::Right => Rotation::Deg90,
        }
    }
}

/// Whether a segment that moved along `old` and now moves along `new` turns to
/// the right, by comparing the coordinates of the two unit vectors across the
/// axes. A reversal is no right turn.
pub open spec fn spec_is_right_turn(new: SnakeMovement, old: SnakeMovement) -> bool {
    let n = new.offset();
    let o = old.offset();
    (n.x != 0 && o.y != 0 && n.x == o.y) || (n.y != 0 && o.x != 0 && n.y != o.x)
}

#[verifier::when_used_as_spec(spec_is_right_turn)]
pub fn is_right_turn(new: SnakeMovement, old: SnakeMovement) -> (b: bool)
    ensures
        b == spec_is_right_turn(new, old),
{
    let n = new.to_direction();
    let o = old.to_direction();
    (n.x != 0 && o.y != 0 && n.x == o.y) || (n.y != 0 && o.x != 0 && n.y != o.x)
}

/// A turn is a right turn exactly when it is clockwise: the cross product of
/// the old direction with the new one is -1.
pub proof fn lemma_right_turn_is_clockwise(new: SnakeMovement, old: SnakeMovement)
    ensures
        spec_is_right_turn(new, old) <==> old.offset().x * new.offset().y - old.offset().y
            * new.offset().x == -1,
{
}

/// Every direction's unit vector is cardinal, and no two directions share one.
pub proof fn lemma_offset_is_cardinal(a: SnakeMovement, b: SnakeMovement)
    ensures
        is_cardinal(a.offset()),
        a.offset() == b.offset() ==> a == b,
{
}

} // verus!
