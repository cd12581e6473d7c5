//! What holds of the game as a whole, proved from the models of its systems.

use vstd::prelude::*;
use crate::arena::Arena;
use crate::chain::{
    leader, lemma_source_of_whole_chain, lemma_walk_follows_leader, linked, resolves, segment,
    source,
};
use crate::direction::{is_cardinal, lemma_offset_is_cardinal, SnakeMovement};
use crate::engine::{advanced, follow, Carried};
use crate::input::{resolved, resolved_all, PressedKeys};
use crate::snake::{lookup, GameEvent};
use crate::world::WorldView;

verus! {

/// Whatever keys are held from frame to frame, the head's direction is one
/// of the four unit vectors along the axes.
pub proof fn lemma_direction_stays_cardinal(direction: SnakeMovement, frames: Seq<PressedKeys>)
    ensures
        is_cardinal(resolved_all(direction, frames).offset()),
{
    lemma_offset_is_cardinal(resolved_all(direction, frames), direction);
}

/// With no directional key held, resolving the intent changes nothing: the
/// head keeps its direction, however often this is done.
pub proof fn lemma_no_input_keeps_direction(w: WorldView, keys: PressedKeys)
    requires
        !keys.up() && !keys.down() && !keys.left() && !keys.right(),
    ensures
        w.intended(keys) == w,
        w.intended(keys).intended(keys) == w,
        forall|d: SnakeMovement| resolved(d, keys) == d,
{
}

/// One step moves the head by exactly one cell along its direction. In a
/// chain that hangs together each segment moves by exactly one cell too,
/// along its own direction and into the place of what lay before it; it
/// takes over the direction of what lay before it; and the chain hangs
/// together afterwards.
pub proof fn lemma_step_moves_one_cell(w: WorldView)
    requires
        w.snake is Some,
        w.apple is Some,
        w.can_step(),
        linked(
            w.snake.unwrap().position@,
            w.bodies,
            w.snake.unwrap().tail,
            w.arena.unit(),
        ),
    ensures
        w.stepped().snake is Some,
        w.stepped().snake.unwrap().tail == w.snake.unwrap().tail,
        w.stepped().snake.unwrap().direction == w.snake.unwrap().direction,
        w.stepped().snake.unwrap().position@ == advanced(
            w.snake.unwrap().position@,
            w.snake.unwrap().direction,
            w.arena.unit(),
        ),
        forall|i: int|
            0 <= i < w.snake.unwrap().tail.len() ==> {
                let before = segment(w.bodies, w.snake.unwrap().tail, i);
                let after = #[trigger] segment(w.stepped().bodies, w.snake.unwrap().tail, i);
                &&& after.position@ == advanced(before.position@, before.direction, w.arena.unit())
                &&& after.position@ == leader(
                    w.snake.unwrap().position@,
                    w.bodies,
                    w.snake.unwrap().tail,
                    i,
                )
                &&& after.direction == if i == 0 {
                    w.snake.unwrap().direction
                } else {
                    segment(w.bodies, w.snake.unwrap().tail, i - 1).direction
                }
            },
        linked(
            w.stepped().snake.unwrap().position@,
            w.stepped().bodies,
            w.snake.unwrap().tail,
            w.arena.unit(),
        ),
{
    let s = w.snake.unwrap();
    let t = w.stepped();
    let tail = s.tail;
    let unit = w.arena.unit();
    let start = Carried { position: s.position, direction: s.direction };
    lemma_walk_follows_leader(w.bodies, tail, start, tail.len());
    assert forall|i: int| 0 <= i < tail.len() implies {
        let before = segment(w.bodies, tail, i);
        let after = #[trigger] segment(t.bodies, tail, i);
        &&& lookup(t.bodies, tail[i]) is Some
        &&& after.position@ == advanced(before.position@, before.direction, unit)
        &&& after.position@ == leader(s.position@, w.bodies, tail, i)
        &&& after.direction == if i == 0 {
            s.direction
        } else {
            segment(w.bodies, tail, i - 1).direction
        }
    } by {
        lemma_source_of_whole_chain(w.bodies, tail, start, i);
        let before = segment(w.bodies, tail, i);
        assert(lookup(w.bodies, tail[i]) is Some);
        let handed = source(w.bodies, tail, start, i as nat);
        assert(lookup(t.bodies, tail[i]) == Some(follow(before, handed, i + 1 == tail.len())));
    }
    assert forall|i: int| 0 <= i < tail.len() implies advanced(
        (#[trigger] segment(t.bodies, tail, i)).position@,
        segment(t.bodies, tail, i).direction,
        unit,
    ) == leader(t.snake.unwrap().position@, t.bodies, tail, i) by {
        if i > 0 {
            let ahead = segment(w.bodies, tail, i - 1);
            let ahead_now = segment(t.bodies, tail, i - 1);
            assert(advanced(ahead.position@, ahead.direction, unit) == ahead_now.position@);
        }
    }
    assert forall|i: int| 0 <= i < tail.len() implies (#[trigger] lookup(
        t.bodies,
        tail[i],
    )) is Some by {
        let after = segment(t.bodies, tail, i);
    }
}

/// Growth does not disturb the chain: if it hangs together before a segment
/// is appended, it hangs together afterwards.
pub proof fn lemma_growth_keeps_chain_linked(w: WorldView)
    requires
        w.snake is Some,
        w.can_grow(),
        linked(
            w.snake.unwrap().position@,
            w.bodies,
            w.snake.unwrap().tail,
            w.arena.unit(),
        ),
    ensures
        w.grown().snake is Some,
        w.grown().snake.unwrap().position == w.snake.unwrap().position,
        linked(
            w.snake.unwrap().position@,
            w.grown().bodies,
            w.grown().snake.unwrap().tail,
            w.arena.unit(),
        ),
{
    let s = w.snake.unwrap();
    let n = s.tail.len() as int;
    let unit = w.arena.unit();
    let head = s.position@;
    if n > 0 {
        assert(lookup(w.bodies, s.tail[n - 1]) is Some);
        let last = w.tail_end().unwrap();
        let g = w.grown();
        let tail = g.snake.unwrap().tail;
        crate::world::lemma_backwards(last.position@, last.direction, unit);
        crate::engine::lemma_advanced_by_one_cell(last.position@, last.direction, -unit);
        let added = crate::world::appended(last, unit);
        crate::engine::lemma_advanced_by_one_cell(added.position@, added.direction, unit);
        assert forall|i: int| 0 <= i < tail.len() implies (#[trigger] lookup(
            g.bodies,
            tail[i],
        )) is Some by {
            if i < n {
                assert(lookup(w.bodies, s.tail[i]) is Some);
            }
        }
        assert forall|i: int, j: int| 0 <= i < j < tail.len() implies tail[i] != tail[j] by {
            assert(lookup(w.bodies, s.tail[i]) is Some);
        }
        assert forall|i: int| 0 <= i < tail.len() implies advanced(
            (#[trigger] segment(g.bodies, tail, i)).position@,
            segment(g.bodies, tail, i).direction,
            unit,
        ) == leader(head, g.bodies, tail, i) by {
            if i < n {
                let before = segment(w.bodies, s.tail, i);
                assert(lookup(w.bodies, s.tail[i]) is Some);
                assert(segment(g.bodies, tail, i).position == before.position);
                assert(segment(g.bodies, tail, i).direction == before.direction);
                if i > 0 {
                    let ahead = segment(w.bodies, s.tail, i - 1);
                    assert(lookup(w.bodies, s.tail[i - 1]) is Some);
                    assert(segment(g.bodies, tail, i - 1).position == ahead.position);
                }
            } else {
                assert(lookup(w.bodies, s.tail[n - 1]) is Some);
                assert(segment(g.bodies, tail, i) == added);
                assert(segment(g.bodies, tail, n - 1).position == last.position);
            }
        }
    }
}

impl WorldView {
    /// While there is a head, the chain hangs together behind it.
    pub open spec fn intact(self) -> bool {
        match self.snake {
            Some(s) => linked(s.position@, self.bodies, s.tail, self.arena.unit()),
            None => true,
        }
    }
}

/// A chain that hangs together keeps doing so through every system: the
/// keys, a step, and the handling of any event.
pub proof fn lemma_chain_stays_intact(w: WorldView, event: GameEvent, cx: int, cy: int)
    requires
        w.intact(),
    ensures
        forall|keys: PressedKeys| (#[trigger] w.intended(keys)).intact(),
        w.can_step() ==> w.stepped().intact(),
        w.consumed(cx, cy).intact(),
        w.terminated().intact(),
        w.can_grow() ==> w.grown().intact(),
        event != GameEvent::GrowthRequested || w.can_grow() ==> w.handled(event, cx, cy).intact(),
{
    if w.snake is Some {
        if w.apple is Some && w.can_step() {
            lemma_step_moves_one_cell(w);
        }
        if w.can_grow() {
            lemma_growth_keeps_chain_linked(w);
        }
    }
}

/// The world after as many apples as there are picks: each is eaten, the
/// apple going to the picked cell, and the snake grows for it.
pub open spec fn fed(w: WorldView, picks: Seq<(int, int)>) -> WorldView
    decreases picks.len(),
{
    if picks.len() == 0 {
        w
    } else {
        fed(w, picks.drop_last()).consumed(picks.last().0, picks.last().1).grown()
    }
}

/// Each apple eaten adds one to the score and one segment to the chain, in a
/// world with a head, an apple and a chain whose identifiers all find a segment.
pub proof fn lemma_apples_count(w: WorldView, picks: Seq<(int, int)>)
    requires
        w.snake is Some,
        w.apple is Some,
        w.snake.unwrap().tail.len() > 0,
        resolves(w.bodies, w.snake.unwrap().tail),
        w.bodies.len() + picks.len() <= usize::MAX,
    ensures
        fed(w, picks).snake is Some,
        fed(w, picks).apple is Some,
        fed(w, picks).score == w.score + picks.len(),
        fed(w, picks).snake.unwrap().tail.len() == w.snake.unwrap().tail.len() + picks.len(),
        fed(w, picks).bodies.len() == w.bodies.len() + picks.len(),
        resolves(fed(w, picks).bodies, fed(w, picks).snake.unwrap().tail),
    decreases picks.len(),
{
    if picks.len() > 0 {
        lemma_apples_count(w, picks.drop_last());
        let before = fed(w, picks.drop_last()).consumed(picks.last().0, picks.last().1);
        let s = before.snake.unwrap();
        let n = s.tail.len() as int;
        let after = before.grown();
        let grown_tail = after.snake.unwrap().tail;
        assert(lookup(before.bodies, s.tail[n - 1]) is Some);
        assert forall|i: int| 0 <= i < grown_tail.len() implies (#[trigger] lookup(
            after.bodies,
            grown_tail[i],
        )) is Some by {
            if i < n {
                assert(lookup(before.bodies, s.tail[i]) is Some);
            }
        }
        assert forall|i: int, j: int| 0 <= i < j < grown_tail.len() implies grown_tail[i]
            != grown_tail[j] by {
            assert(lookup(before.bodies, s.tail[i]) is Some);
        }
    }
}

/// After N apples, from the start of a round, the chain has N + 1 segments
/// and the score is N.
pub proof fn lemma_apples_count_from_start(arena: Arena, cx: int, cy: int, picks: Seq<(int, int)>)
    requires
        picks.len() < usize::MAX,
    ensures
        fed(WorldView::initial(arena, cx, cy), picks).score == picks.len(),
        fed(WorldView::initial(arena, cx, cy), picks).snake.unwrap().tail.len() == picks.len()
            + 1,
{
    let w = WorldView::initial(arena, cx, cy);
    assert forall|i: int| 0 <= i < w.snake.unwrap().tail.len() implies (#[trigger] lookup(
        w.bodies,
        w.snake.unwrap().tail[i],
    )) is Some by {}
    lemma_apples_count(w, picks);
}

/// When the apple is eaten it goes to the centre of the picked cell, which
/// is within the movement limits and on the grid.
pub proof fn lemma_apple_lands_on_grid(w: WorldView, cx: int, cy: int)
    requires
        w.arena.wf(),
        w.apple is Some,
        0 <= cx < w.arena.cells_x(),
        0 <= cy < w.arena.cells_y(),
    ensures
        w.consumed(cx, cy).apple is Some,
        w.consumed(cx, cy).apple.unwrap().position@ == w.arena.cell_position(cx, cy),
        w.arena.in_bounds(w.consumed(cx, cy).apple.unwrap().position@),
        w.arena.on_grid(w.consumed(cx, cy).apple.unwrap().position@),
{
    w.arena.lemma_cells_lie_inside(cx, cy);
}

/// The end of the round is final. Handling the event that the arena was
/// left removes the head; and without a head no step, no key and no event
/// moves anything or brings the head back.
pub proof fn lemma_round_over_is_final(
    w: WorldView,
    keys: PressedKeys,
    delta: u64,
    event: GameEvent,
    cx: int,
    cy: int,
)
    ensures
        w.handled(GameEvent::BoundaryExceeded, cx, cy).snake is None,
        w.snake is None ==> {
            &&& w.stepped() == w
            &&& w.intended(keys) == w
            &&& w.clocked(delta).snake is None
            &&& w.clocked(delta).bodies == w.bodies
            &&& w.clocked(delta).events == w.events
            &&& w.handled(event, cx, cy).snake is None
            &&& w.handled(event, cx, cy).bodies == w.bodies
        },
{
}

} // verus!
