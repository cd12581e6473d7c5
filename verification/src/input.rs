//! The directional controls, and the direction that the player asks for.

use vstd::prelude::*;
use crate::direction::SnakeMovement;

verus! {

/// Which of the directional keys are held: two keys for each direction.
#[derive(Clone, Copy, PartialEq, Eq, Structural, Debug)]
pub struct PressedKeys {
    pub key_w: bool,
    pub arrow_up: bool,
    pub key_s: bool,
    pub arrow_down: bool,
    pub key_a: bool,
    pub arrow_left: bool,
    pub key_d: bool,
    pub arrow_right: bool,
}

impl PressedKeys {
    pub open spec fn up(self) -> bool {
        self.key_w || self.arrow_up
    }

    pub open spec fn down(self) -> bool {
        self.key_s || self.arrow_down
    }

    pub open spec fn left(self) -> bool {
        self.key_a || self.arrow_left
    }

    pub open spec fn right(self) -> bool {
        self.key_d || self.arrow_right
    }

    /// The direction asked for, if any. The keys are tested in the order up,
    /// down, left, right, and the last one that is held wins.
    pub open spec fn intent(self) -> Option<SnakeMovement> {
        if self.right() {
            Some(SnakeMovement::Right)
        } else if self.left() {
            Some(SnakeMovement::Left)
        } else if self.down() {
            Some(SnakeMovement::Down)
        } else if self.up() {
            Some(SnakeMovement::Up)
        } else {
            None
        }
    }

    /// No key held.
    pub fn released() -> (k: PressedKeys)
        ensures
            !k.key_w && !k.arrow_up && !k.key_s && !k.arrow_down,
            !k.key_a && !k.arrow_left && !k.key_d && !k.arrow_right,
            k.intent() is None,
    {
        PressedKeys {
            key_w: false,
            arrow_up: false,
            key_s: false,
            arrow_down: false,
            key_a: false,
            arrow_left: false,
            key_d: false,
            arrow_right: false,
        }
    }

    /// The direction asked for, if any.
    pub fn resolve(&self) -> (d: Option<SnakeMovement>)
        ensures
            d == self.intent(),
    {
        let mut direction: Option<SnakeMovement> = None;
        if self.key_w || self.arrow_up {
            direction = Some(SnakeMovement::Up);
        }
        if self.key_s || self.arrow_down {
            direction = Some(SnakeMovement::Down);
        }
        if self.key_a || self.arrow_left {
            direction = Some(SnakeMovement::Left);
        }
        if self.key_d || self.arrow_right {
            direction = Some(SnakeMovement::Right);
        }
        direction
    }
}

/// The direction of the head after one frame's keys: the one asked for, or
/// the one it had.
pub open spec fn resolved(direction: SnakeMovement, keys: PressedKeys) -> SnakeMovement {
    match keys.intent() {
        Some(d) => d,
        None => direction,
    }
}

/// The direction of the head after the keys of several frames, one after the other.
pub open spec fn resolved_all(direction: SnakeMovement, frames: Seq<PressedKeys>) -> SnakeMovement
    decreases frames.len(),
{
    if frames.len() == 0 {
        direction
    } else {
        resolved(resolved_all(direction, frames.drop_last()), frames.last())
    }
}

} // verus!
