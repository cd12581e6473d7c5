//! The four walls round the arena: where each stands and how large it is.

use vstd::prelude::*;
use crate::arena::Arena;
use crate::vector::{Point, Vector};

verus! {

/// Which side of the arena a wall closes.
#[derive(Clone, Copy, PartialEq, Eq, Structural, Debug)]
pub enum WallLocation {
    Top,
    Bottom,
    Left,
    Right,
}

impl WallLocation {
    /// The centre of the wall.
    pub open spec fn spec_position(self, arena: Arena) -> Point {
        match self {
            WallLocation::Top => Point {
                x: arena.wall_width_offset as int,
                y: arena.wall_top + arena.wall_height_offset,
            },
            WallLocation::Bottom => Point {
                x: arena.wall_width_offset as int,
                y: arena.wall_bottom + arena.wall_height_offset,
            },
            WallLocation::Left => Point {
                x: arena.wall_left + arena.wall_width_offset,
                y: arena.wall_height_offset as int,
            },
            WallLocation::Right => Point {
                x: arena.wall_right + arena.wall_width_offset,
                y: arena.wall_height_offset as int,
            },
        }
    }

    /// The width and the height of the wall: it is as thick as configured and
    /// runs along its side, past both corners by half its thickness.
    pub open spec fn spec_size(self, arena: Arena) -> Point {
        match self {
            WallLocation::Top | WallLocation::Bottom => Point {
                x: arena.wall_right - arena.wall_left + arena.wall_thickness,
                y: arena.wall_thickness as int,
            },
            WallLocation::Left | WallLocation::Right => Point {
                x: arena.wall_thickness as int,
                y: arena.wall_top - arena.wall_bottom + arena.wall_thickness,
            },
        }
    }

    pub fn position(&self, arena: &Arena) -> (p: Vector)
        ensures
            p@ == self.spec_position(*arena),
    {
        match self {
            WallLocation::Top => Vector {
                x: arena.wall_width_offset as i64,
                y: arena.wall_top as i64 + arena.wall_height_offset as i64,
            },
            WallLocation::Bottom => Vector {
                x: arena.wall_width_offset as i64,
                y: arena.wall_bottom as i64 + arena.wall_height_offset as i64,
            },
            WallLocation::Left => Vector {
                x: arena.wall_left as i64 + arena.wall_width_offset as i64,
                y: arena.wall_height_offset as i64,
            },
            WallLocation::Right => Vector {
                x: arena.wall_right as i64 + arena.wall_width_offset as i64,
                y: arena.wall_height_offset as i64,
            },
        }
    }

    pub fn size(&self, arena: &Arena) -> (s: Vector)
        requires
            arena.wall_top > arena.wall_bottom,
            arena.wall_right > arena.wall_left,
        ensures
            s@ == self.spec_size(*arena),
    {
        let arena_height: i64 = arena.wall_top as i64 - arena.wall_bottom as i64;
        let arena_width: i64 = arena.wall_right as i64 - arena.wall_left as i64;
        match self {
            WallLocation::Top | WallLocation::Bottom => Vector {
                x: arena_width + arena.wall_thickness as i64,
                y: arena.wall_thickness as i64,
            },
            WallLocation::Left | WallLocation::Right => Vector {
                x: arena.wall_thickness as i64,
                y: arena_height + arena.wall_thickness as i64,
            },
        }
    }
}

/// A wall: the side it closes, its centre and its extent.
#[derive(Clone, Copy, PartialEq, Eq, Structural, Debug)]
pub struct Wall {
    pub location: WallLocation,
    pub position: Vector,
    pub scale: Vector,
}

impl Wall {
    pub fn new(location: WallLocation, arena: &Arena) -> (w: Wall)
        requires
            arena.wall_top > arena.wall_bottom,
            arena.wall_right > arena.wall_left,
        ensures
            w.location == location,
            w.position@ == location.spec_position(*arena),
            w.scale@ == location.spec_size(*arena),
    {
        Wall { location, position: location.position(arena), scale: location.size(arena) }
    }
}

/// The four walls, in the order top, bottom, left, right.
pub fn init_walls(arena: &Arena) -> (walls: Vec<Wall>)
    requires
        arena.wall_top > arena.wall_bottom,
        arena.wall_right > arena.wall_left,
    ensures
        walls@.len() == 4,
        walls@[0].location == WallLocation::Top,
        walls@[1].location == WallLocation::Bottom,
        walls@[2].location == WallLocation::Left,
        walls@[3].location == WallLocation::Right,
        forall|i: int|
            0 <= i < 4 ==> {
                &&& (#[trigger] walls@[i]).position@ == walls@[i].location.spec_position(*arena)
                &&& walls@[i].scale@ == walls@[i].location.spec_size(*arena)
            },
{
    let mut walls: Vec<Wall> = Vec::new();
    walls.push(Wall::new(WallLocation::Top, arena));
    walls.push(Wall::new(WallLocation::Bottom, arena));
    walls.push(Wall::new(WallLocation::Left, arena));
    walls.push(Wall::new(WallLocation::Right, arena));
    walls
}

} // verus!
