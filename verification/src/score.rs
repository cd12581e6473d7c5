//! The score: how many apples the snake has eaten.

use vstd::prelude::*;

verus! {

/// A counter that starts at 0 and only ever grows by one.
#[derive(Clone, Copy, PartialEq, Eq, Structural, Debug)]
pub struct Score(pub usize);

impl View for Score {
    type V = int;

    open spec fn view(&self) -> int {
        self.0 as int
    }
}

impl Score {
    pub fn new() -> (s: Score)
        ensures
            s@ == 0,
    {
        Score(0)
    }

    pub fn value(&self) -> (v: usize)
        ensures
            v == self@,
    {
        self.0
    }

    /// Counts one more apple.
    pub fn increment(&mut self)
        requires
            old(self)@ < usize::MAX,
        ensures
            final(self)@ == old(self)@ + 1,
    {
        self.0 = self.0 + 1;
    }
}

} // verus!
