//! The movement clock: a repeating interval timer that gates the steps.

use vstd::prelude::*;
use bevy::time::{Timer, TimerMode};
use crate::constants::SNAKE_NANOS_PER_MOVEMENT;
use std::time::Duration;

verus! {

/// A repeating timer, in nanoseconds: the interval, and the time gathered
/// since it last fired.
#[derive(Clone, Copy, PartialEq, Eq, Structural, Debug)]
pub struct MovementTimer {
    pub interval_nanos: u64,
    pub elapsed_nanos: u64,
}

/// What a repeating timer has gathered after a tick of `delta` nanoseconds:
/// the whole intervals are dropped, however many there were.
pub open spec fn spec_wrapped(interval: int, elapsed: int, delta: int) -> int {
    if interval == 0 {
        0
    } else {
        (elapsed + delta) % interval
    }
}

/// Builds a repeating `bevy::time::Timer` of the given interval with
/// `Timer::new`, lets it have gathered `elapsed_nanos` with
/// `Timer::set_elapsed`, ticks it by `delta_nanos` with `Timer::tick`, and
/// hands back `Timer::finished` and `Timer::elapsed`. The contract is what
/// `Timer::tick` does to a repeating timer that is not paused: it adds the
/// delta, is finished exactly when the sum has reached the interval, and
/// keeps the remainder of the sum by the interval (nothing, where the
/// interval is zero). None of this is proved here.
#[verifier::external_body]
fn repeating_tick(interval_nanos: u64, elapsed_nanos: u64, delta_nanos: u64) -> (r: (bool, u64))
    ensures
        r.0 == (elapsed_nanos + delta_nanos >= interval_nanos),
        r.1 == spec_wrapped(interval_nanos as int, elapsed_nanos as int, delta_nanos as int),
{
    let mut timer = Timer::new(Duration::from_nanos(interval_nanos), TimerMode::Repeating);
    timer.set_elapsed(Duration::from_nanos(elapsed_nanos));
    timer.tick(Duration::from_nanos(delta_nanos));
    (timer.finished(), timer.elapsed().as_nanos() as u64)
}

impl MovementTimer {
    /// The interval is positive and has not yet been reached.
    pub open spec fn wf(self) -> bool {
        self.interval_nanos > 0 && self.elapsed_nanos < self.interval_nanos
    }

    /// Whether a tick of `delta` nanoseconds makes the timer fire.
    pub open spec fn fires(self, delta: u64) -> bool {
        self.elapsed_nanos + delta >= self.interval_nanos
    }

    /// The timer after a tick of `delta` nanoseconds.
    pub open spec fn ticked(self, delta: u64) -> MovementTimer {
        MovementTimer {
            interval_nanos: self.interval_nanos,
            elapsed_nanos: spec_wrapped(
                self.interval_nanos as int,
                self.elapsed_nanos as int,
                delta as int,
            ) as u64,
        }
    }

    /// A timer of the given interval that has gathered nothing.
    pub fn from_nanos(interval_nanos: u64) -> (t: MovementTimer)
        ensures
            t.interval_nanos == interval_nanos,
            t.elapsed_nanos == 0,
            interval_nanos > 0 ==> t.wf(),
    {
        MovementTimer { interval_nanos, elapsed_nanos: 0 }
    }

    /// The timer of the standard game.
    pub fn standard() -> (t: MovementTimer)
        ensures
            t.interval_nanos == SNAKE_NANOS_PER_MOVEMENT,
            t.elapsed_nanos == 0,
            t.wf(),
    {
        MovementTimer { interval_nanos: SNAKE_NANOS_PER_MOVEMENT, elapsed_nanos: 0 }
    }

    /// Adds `delta_nanos` and says whether the interval was reached. It fires
    /// once, however many intervals have passed, and keeps what is left over
    /// of the last one.
    pub fn tick(&mut self, delta_nanos: u64) -> (finished: bool)
        requires
            old(self).wf(),
        ensures
            finished == old(self).fires(delta_nanos),
            *final(self) == old(self).ticked(delta_nanos),
            final(self).elapsed_nanos == (old(self).elapsed_nanos + delta_nanos)
                % (old(self).interval_nanos as int),
            final(self).wf(),
    {
        let r = repeating_tick(self.interval_nanos, self.elapsed_nanos, delta_nanos);
        proof {
            vstd::arithmetic::div_mod::lemma_mod_bound(
                self.elapsed_nanos + delta_nanos,
                self.interval_nanos as int,
            );
        }
        self.elapsed_nanos = r.1;
        r.0
    }
}

} // verus!
