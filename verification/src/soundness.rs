//! The invariant of a world in play, and the proofs that every system keeps
//! it. It bounds the chain, so that no coordinate ever leaves the machine's
//! range.

use vstd::prelude::*;
use crate::arena::Arena;
use crate::chain::{distinct, leader, lemma_walk_follows_leader, linked, segment, source};
use crate::engine::{advanced, Carried};
use crate::input::PressedKeys;
use crate::snake::{lookup, BodySnake, GameEvent};
use crate::vector::Point;
use crate::world::{World, WorldView};

verus! {

/// The most segments that a chain may have.
pub const MAX_CHAIN: usize = 0x4000_0000;

/// No further than one cell beyond the movement limits.
pub open spec fn near_arena(arena: Arena, p: Point) -> bool {
    &&& arena.x_min() - arena.unit() <= p.x <= arena.x_max() + arena.unit()
    &&& arena.y_min() - arena.unit() <= p.y <= arena.y_max() + arena.unit()
}

/// Each segment of the chain that is still there lies no further from
/// `head`, along the axes, than as many cells as its rank in the chain.
pub open spec fn within_reach(
    head: Point,
    bodies: Seq<Option<BodySnake>>,
    tail: Seq<usize>,
    unit: int,
) -> bool {
    forall|i: int|
        0 <= i < tail.len() ==> match #[trigger] lookup(bodies, tail[i]) {
            Some(b) => b.position@.minus(head).reach() <= (i + 1) * unit,
            None => true,
        }
}

impl WorldView {
    /// The invariant: a usable arena and clock; a table of at most
    /// `MAX_CHAIN` entries; and, while there is a head, a chain of
    /// identifiers of the table, none twice, with the head near the arena
    /// and every segment within reach of it.
    pub open spec fn sound(self) -> bool {
        &&& self.arena.wf()
        &&& self.timer.wf()
        &&& self.bodies.len() <= MAX_CHAIN
        &&& match self.snake {
            Some(s) => {
                &&& s.tail.len() <= self.bodies.len()
                &&& distinct(s.tail)
                &&& forall|i: int|
                    0 <= i < s.tail.len() ==> #[trigger] s.tail[i] < self.bodies.len()
                &&& near_arena(self.arena, s.position@)
                &&& within_reach(s.position@, self.bodies, s.tail, self.arena.unit())
            },
            None => true,
        }
    }

    /// The head, if there is one, is within the movement limits.
    pub open spec fn head_inside(self) -> bool {
        match self.snake {
            Some(s) => self.arena.in_bounds(s.position@),
            None => true,
        }
    }
}

/// The movement limits, and so every point near the arena, are far inside
/// the machine's range.
pub proof fn lemma_near_arena_bounded(arena: Arena, p: Point)
    requires
        arena.wf(),
        near_arena(arena, p),
    ensures
        -0x4_0000_0000 <= p.x <= 0x4_0000_0000,
        -0x4_0000_0000 <= p.y <= 0x4_0000_0000,
{
}

/// A sound world can take a step.
pub proof fn lemma_sound_can_step(w: WorldView)
    requires
        w.sound(),
    ensures
        w.can_step(),
{
    if w.snake is Some {
        let s = w.snake.unwrap();
        lemma_near_arena_bounded(w.arena, s.position@);
        match s.direction {
            crate::direction::SnakeMovement::Up => {},
            crate::direction::SnakeMovement::Down => {},
            crate::direction::SnakeMovement::Left => {},
            crate::direction::SnakeMovement::Right => {},
        }
    }
}

/// A sound world whose table is not full can grow.
pub proof fn lemma_sound_can_grow(w: WorldView)
    requires
        w.sound(),
        w.bodies.len() < MAX_CHAIN,
    ensures
        w.can_grow(),
{
    if w.tail_end() is Some {
        let s = w.snake.unwrap();
        let last = w.tail_end().unwrap();
        let n = s.tail.len() as int;
        let u = w.arena.unit();
        assert(lookup(w.bodies, s.tail[n - 1]) == Some(last));
        assert(last.position@.minus(s.position@).reach() <= n * u);
        assert(n * u <= 0x4000_0000 * 0x8000_0000) by (nonlinear_arith)
            requires
                0 <= n <= 0x4000_0000,
                0 < u < 0x8000_0000,
        ;
        lemma_near_arena_bounded(w.arena, s.position@);
        match last.direction {
            crate::direction::SnakeMovement::Up => {},
            crate::direction::SnakeMovement::Down => {},
            crate::direction::SnakeMovement::Left => {},
            crate::direction::SnakeMovement::Right => {},
        }
    }
}

/// A round starts sound, with the head inside the arena, no event waiting,
/// and the chain hanging together.
pub proof fn lemma_initial_at_rest(arena: Arena, cx: int, cy: int)
    requires
        arena.wf(),
    ensures
        WorldView::initial(arena, cx, cy).sound(),
        WorldView::initial(arena, cx, cy).head_inside(),
        WorldView::initial(arena, cx, cy).events.len() == 0,
        linked(
            arena.head_start(),
            WorldView::initial(arena, cx, cy).bodies,
            WorldView::initial(arena, cx, cy).snake.unwrap().tail,
            arena.unit(),
        ),
{
    let w = WorldView::initial(arena, cx, cy);
    let s = w.snake.unwrap();
    lemma_near_arena_bounded(arena, arena.head_start());
    assert(s.position@ == arena.head_start());
    let first = w.bodies[0].unwrap();
    assert(first.position@ == Point { x: -arena.half_unit() - arena.unit(), y: 0 });
    assert(lookup(w.bodies, s.tail[0]) == Some(first));
    assert(first.position@.minus(s.position@).reach() == arena.unit());
    crate::engine::lemma_advanced_by_one_cell(first.position@, first.direction, arena.unit());
    assert forall|i: int| 0 <= i < s.tail.len() implies advanced(
        (#[trigger] segment(w.bodies, s.tail, i)).position@,
        segment(w.bodies, s.tail, i).direction,
        arena.unit(),
    ) == leader(arena.head_start(), w.bodies, s.tail, i) by {
        assert(segment(w.bodies, s.tail, i) == first);
    }
}

/// The keys keep a sound world sound.
pub proof fn lemma_intended_sound(w: WorldView, keys: PressedKeys)
    requires
        w.sound(),
    ensures
        w.intended(keys).sound(),
        w.intended(keys).head_inside() == w.head_inside(),
        w.intended(keys).events == w.events,
        w.intended(keys).bodies == w.bodies,
        w.intended(keys).score == w.score,
        w.intended(keys).apple == w.apple,
{
}

/// Eating keeps a sound world sound.
pub proof fn lemma_consumed_sound(w: WorldView, cx: int, cy: int)
    requires
        w.sound(),
    ensures
        w.consumed(cx, cy).sound(),
        w.consumed(cx, cy).head_inside() == w.head_inside(),
{
}

/// The end of the round keeps a sound world sound.
pub proof fn lemma_terminated_sound(w: WorldView)
    requires
        w.sound(),
    ensures
        w.terminated().sound(),
        w.terminated().head_inside(),
{
}

/// Growth keeps a sound world sound, while the table is not full.
pub proof fn lemma_grown_sound(w: WorldView)
    requires
        w.sound(),
        w.bodies.len() < MAX_CHAIN,
    ensures
        w.grown().sound(),
        w.grown().head_inside() == w.head_inside(),
        w.grown().bodies.len() <= w.bodies.len() + 1,
{
    if w.tail_end() is Some {
        lemma_sound_can_grow(w);
        let s = w.snake.unwrap();
        let last = w.tail_end().unwrap();
        let n = s.tail.len() as int;
        let u = w.arena.unit();
        let g = w.grown();
        let gs = g.snake.unwrap();
        let id = s.tail[n - 1];
        assert(lookup(w.bodies, s.tail[n - 1]) == Some(last));
        assert(last.position@.minus(s.position@).reach() <= n * u);
        assert((n + 1) * u == n * u + u) by (nonlinear_arith);
        assert(distinct(gs.tail));
        match last.direction {
            crate::direction::SnakeMovement::Up => {},
            crate::direction::SnakeMovement::Down => {},
            crate::direction::SnakeMovement::Left => {},
            crate::direction::SnakeMovement::Right => {},
        }
        assert forall|i: int| 0 <= i < gs.tail.len() implies match #[trigger] lookup(
            g.bodies,
            gs.tail[i],
        ) {
            Some(b) => b.position@.minus(gs.position@).reach() <= (i + 1) * u,
            None => true,
        } by {
            if i < n {
                assert(gs.tail[i] == s.tail[i]);
                assert(s.tail[i] < w.bodies.len());
                if s.tail[i] == id {
                    assert(lookup(g.bodies, gs.tail[i]).unwrap().position == last.position);
                    assert(i == n - 1);
                } else {
                    assert(lookup(g.bodies, gs.tail[i]) == lookup(w.bodies, s.tail[i]));
                }
            }
        }
    }
}

/// What a segment is handed in a step lies within reach of where the head was.
pub proof fn lemma_source_within_reach(
    bodies: Seq<Option<BodySnake>>,
    tail: Seq<usize>,
    start: Carried,
    unit: int,
    n: nat,
)
    requires
        n <= tail.len(),
        unit >= 0,
        within_reach(start.position@, bodies, tail, unit),
    ensures
        source(bodies, tail, start, n).position@.minus(start.position@).reach() <= n * unit,
    decreases n,
{
    if n > 0 {
        assert((n - 1) * unit <= n * unit) by (nonlinear_arith)
            requires
                unit >= 0,
        ;
        match lookup(bodies, tail[n - 1]) {
            Some(b) => {},
            None => {
                lemma_source_within_reach(bodies, tail, start, unit, (n - 1) as nat);
            },
        }
    }
}

/// A step keeps a sound world sound, if the head is within the movement
/// limits when it starts. After it the head is still within them, or the
/// step has said that it is not.
pub proof fn lemma_stepped_sound(w: WorldView)
    requires
        w.sound(),
        w.head_inside(),
    ensures
        w.stepped().sound(),
        w.stepped().snake is Some == w.snake is Some,
        w.stepped().head_inside() || w.stepped().events.contains(GameEvent::BoundaryExceeded),
        w.stepped().bodies.len() == w.bodies.len(),
        w.stepped().score == w.score,
        w.stepped().apple == w.apple,
        w.stepped().timer == w.timer,
{
    if w.snake is Some && w.apple is Some {
        lemma_sound_can_step(w);
        let s = w.snake.unwrap();
        let u = w.arena.unit();
        let t = w.stepped();
        let ts = t.snake.unwrap();
        let start = Carried { position: s.position, direction: s.direction };
        let n = s.tail.len();
        lemma_walk_follows_leader(w.bodies, s.tail, start, n);
        match s.direction {
            crate::direction::SnakeMovement::Up => {},
            crate::direction::SnakeMovement::Down => {},
            crate::direction::SnakeMovement::Left => {},
            crate::direction::SnakeMovement::Right => {},
        }
        crate::engine::lemma_advanced_by_one_cell(s.position@, s.direction, u);
        assert(ts.position@ == advanced(s.position@, s.direction, u));
        assert(ts.position@.minus(s.position@).reach() == u);
        assert forall|i: int| 0 <= i < ts.tail.len() implies match #[trigger] lookup(
            t.bodies,
            ts.tail[i],
        ) {
            Some(b) => b.position@.minus(ts.position@).reach() <= (i + 1) * u,
            None => true,
        } by {
            lemma_source_within_reach(w.bodies, s.tail, start, u, i as nat);
            assert((i + 1) * u == i * u + u) by (nonlinear_arith);
        }
        let head = ts.position@;
        let found = crate::engine::detected(w.arena, head, w.apple.unwrap().position@);
        if !w.arena.in_bounds(head) {
            let k = w.events.len() + found.len() - 1;
            assert(t.events[k] == GameEvent::BoundaryExceeded);
        }
    }
}

impl World {
    /// Whether the world is sound.
    pub fn is_sound(&self) -> (ok: bool)
        ensures
            ok == self@.sound(),
    {
        if !self.arena.is_valid() || self.timer.interval_nanos == 0 || self.timer.elapsed_nanos
            >= self.timer.interval_nanos || self.bodies.len() > MAX_CHAIN {
            return false;
        }
        match &self.snake {
            None => true,
            Some(s) => {
                let n: usize = s.tail.len();
                let size: usize = self.bodies.len();
                let l = self.arena.limits();
                let unit: i64 = self.arena.cell_size();
                if n > size || s.position.x < l.0 - unit || s.position.x > l.1 + unit
                    || s.position.y < l.2 - unit || s.position.y > l.3 + unit {
                    return false;
                }
                let mut seen: Vec<bool> = vec![false; size];
                let mut i: usize = 0;
                while i < n
                    invariant
                        i <= n,
                        n == s.tail@.len(),
                        n <= size,
                        size == self.bodies@.len(),
                        size <= MAX_CHAIN,
                        unit == self.arena.unit(),
                        self.arena.wf(),
                        self.snake == Some(*s),
                        seen@.len() == size,
                        forall|j: int| 0 <= j < i ==> #[trigger] s.tail@[j] < size,
                        forall|j: int, k: int| 0 <= j < k < i ==> s.tail@[j] != s.tail@[k],
                        forall|id: int|
                            0 <= id < size ==> (#[trigger] seen@[id] <==> exists|j: int|
                                0 <= j < i && s.tail@[j] == id),
                        forall|j: int|
                            0 <= j < i ==> match #[trigger] lookup(self.bodies@, s.tail@[j]) {
                                Some(b) => b.position@.minus(s.position@).reach() <= (j + 1)
                                    * unit,
                                None => true,
                            },
                    decreases n - i,
                {
                    let id: usize = s.tail[i];
                    if id >= size {
                        assert(!(s.tail@[i as int] < size));
                        return false;
                    }
                    if seen[id] {
                        proof {
                            let j = choose|j: int| 0 <= j < i && s.tail@[j] == id;
                            assert(s.tail@[j] == s.tail@[i as int]);
                        }
                        return false;
                    }
                    let ghost marked = seen@;
                    seen.set(id, true);
                    if let Some(b) = self.bodies[id] {
                        let dx: i128 = b.position.x as i128 - s.position.x as i128;
                        let dy: i128 = b.position.y as i128 - s.position.y as i128;
                        let ax: i128 = if dx < 0 { -dx } else { dx };
                        let ay: i128 = if dy < 0 { -dy } else { dy };
                        let rank: i128 = i as i128 + 1;
                        assert(0 <= rank * unit <= 0x4000_0000 * 0x8000_0000) by (nonlinear_arith)
                            requires
                                0 < rank <= 0x4000_0000,
                                0 < unit < 0x8000_0000,
                        ;
                        if ax + ay > rank * unit as i128 {
                            assert(lookup(self.bodies@, s.tail@[i as int]) == Some(b));
                            return false;
                        }
                    }
                    proof {
                        assert forall|x: int| 0 <= x < size implies (#[trigger] seen@[x]
                            <==> exists|j: int| 0 <= j < i + 1 && s.tail@[j] == x) by {
                            if x == id {
                                assert(s.tail@[i as int] == x);
                            } else if seen@[x] {
                                assert(marked[x]);
                                let j = choose|j: int| 0 <= j < i && s.tail@[j] == x;
                                assert(0 <= j < i + 1 && s.tail@[j] == x);
                            } else if exists|j: int| 0 <= j < i + 1 && s.tail@[j] == x {
                                let j = choose|j: int| 0 <= j < i + 1 && s.tail@[j] == x;
                                assert(j < i);
                                assert(marked[x]);
                            }
                        }
                        assert forall|j: int, k: int| 0 <= j < k < i + 1 implies s.tail@[j]
                            != s.tail@[k] by {
                            if k == i && s.tail@[j] == id {
                                assert(marked[id as int]);
                            }
                        }
                    }
                    i = i + 1;
                }
                true
            },
        }
    }

    /// Whether a frame can run: the world is sound, the head is inside the
    /// arena, no event waits, and the score and the table have room for one
    /// more apple.
    pub fn can_update(&self) -> (ok: bool)
        ensures
            ok == (self@.at_rest() && self@.score < usize::MAX && self@.bodies.len() < MAX_CHAIN),
    {
        if !self.is_sound() || self.events.len() != 0 || self.score.value() == usize::MAX
            || self.bodies.len() >= MAX_CHAIN {
            return false;
        }
        match &self.snake {
            None => true,
            Some(s) => self.arena.contains(s.position),
        }
    }
}

} // verus!
