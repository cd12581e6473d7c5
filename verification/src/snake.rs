//! The snake and what it meets: the head, the segments that follow it, the
//! apple, and the events that a step gives rise to.

use vstd::prelude::*;
use crate::direction::{Rotation, SnakeMovement};
use crate::vector::{Point, Vector};

verus! {

/// How a segment is drawn.
#[derive(Clone, Copy, PartialEq, Eq, Structural, Debug)]
pub enum Look {
    /// The end of the tail.
    TailEnd,
    /// A straight piece of the body.
    Body,
    /// A piece of the body that turns.
    Corner,
}

/// One segment of the body. Its direction is the one that leads to the
/// segment before it, and so the one of its next move.
#[derive(Clone, Copy, PartialEq, Eq, Structural, Debug)]
pub struct BodySnake {
    pub position: Vector,
    pub direction: SnakeMovement,
    pub rotation: Rotation,
    pub look: Look,
}

/// The head. `tail` holds the identifiers of the segments, from the one
/// behind the head to the end of the tail: each is an index into the table of
/// segments.
#[derive(Debug)]
pub struct Snake {
    pub position: Vector,
    pub direction: SnakeMovement,
    pub rotation: Rotation,
    pub tail: Vec<usize>,
}

/// The model of the head: the same values, with the tail as a sequence.
pub struct SnakeView {
    pub position: Vector,
    pub direction: SnakeMovement,
    pub rotation: Rotation,
    pub tail: Seq<usize>,
}

impl View for Snake {
    type V = SnakeView;

    open spec fn view(&self) -> SnakeView {
        SnakeView {
            position: self.position,
            direction: self.direction,
            rotation: self.rotation,
            tail: self.tail@,
        }
    }
}

/// The food.
#[derive(Clone, Copy, PartialEq, Eq, Structural, Debug)]
pub struct Apple {
    pub position: Vector,
}

/// What the engine detects or asks for.
#[derive(Clone, Copy, PartialEq, Eq, Structural, Debug)]
pub enum GameEvent {
    /// The head has reached the apple.
    FoodReached,
    /// The head has left the arena.
    BoundaryExceeded,
    /// The snake is to grow by one segment.
    GrowthRequested,
}

/// A sound that the engine asks for and does not wait for.
#[derive(Clone, Copy, PartialEq, Eq, Structural, Debug)]
pub enum Cue {
    /// An apple was eaten.
    Coin,
    /// The round is over.
    Crunch,
}

/// A position with machine coordinates.
pub open spec fn fits(p: Point) -> bool {
    i64::MIN <= p.x <= i64::MAX && i64::MIN <= p.y <= i64::MAX
}

/// The machine value of a point that fits.
pub open spec fn vector_of(p: Point) -> Vector {
    Vector { x: p.x as i64, y: p.y as i64 }
}

/// The table's entry for an identifier: the segment, if it is still there.
pub open spec fn lookup(bodies: Seq<Option<BodySnake>>, id: usize) -> Option<BodySnake> {
    if id < bodies.len() {
        bodies[id as int]
    } else {
        None
    }
}

} // verus!
