//! The event bus: the events that wait are handled in passes, each event
//! once and in the order of emission. What a pass emits waits for the next.

use vstd::prelude::*;
use crate::arena::Arena;
use crate::engine::{advanced, detected, reaches};
use crate::input::PressedKeys;
use crate::laws::lemma_chain_stays_intact;
use crate::snake::{Cue, GameEvent};
use crate::soundness::{
    lemma_consumed_sound, lemma_grown_sound, lemma_intended_sound, lemma_sound_can_grow,
    lemma_sound_can_step, lemma_stepped_sound, lemma_terminated_sound, MAX_CHAIN,
};
use crate::vector::Point;
use crate::world::{World, WorldView};

verus! {

/// How many of the events are of the given kind.
pub open spec fn count(events: Seq<GameEvent>, kind: GameEvent) -> nat
    decreases events.len(),
{
    if events.len() == 0 {
        0
    } else {
        (if events[0] == kind {
            1nat
        } else {
            0nat
        }) + count(events.drop_first(), kind)
    }
}

/// No more events are of a kind than there are events.
pub proof fn lemma_count_bounded(events: Seq<GameEvent>, kind: GameEvent)
    ensures
        count(events, kind) <= events.len(),
    decreases events.len(),
{
    if events.len() > 0 {
        lemma_count_bounded(events.drop_first(), kind);
    }
}

/// Where no event is of a kind, the count of that kind is zero.
pub proof fn lemma_count_none(events: Seq<GameEvent>, kind: GameEvent)
    requires
        forall|k: int| 0 <= k < events.len() ==> events[k] != kind,
    ensures
        count(events, kind) == 0,
    decreases events.len(),
{
    if events.len() > 0 {
        assert forall|k: int| 0 <= k < events.drop_first().len() implies events.drop_first()[k]
            != kind by {
            assert(events.drop_first()[k] == events[k + 1]);
        }
        lemma_count_none(events.drop_first(), kind);
    }
}

/// What one step detects: that the apple is reached at most once, that the
/// arena is left at most once, and never a request for growth.
pub proof fn lemma_detected_once(arena: Arena, head: Point, apple: Point)
    ensures
        count(detected(arena, head, apple), GameEvent::FoodReached) == if reaches(
            arena,
            head,
            apple,
        ) {
            1nat
        } else {
            0nat
        },
        count(detected(arena, head, apple), GameEvent::BoundaryExceeded) == if arena.in_bounds(
            head,
        ) {
            0nat
        } else {
            1nat
        },
        count(detected(arena, head, apple), GameEvent::GrowthRequested) == 0,
        detected(arena, head, apple).contains(GameEvent::BoundaryExceeded) == !arena.in_bounds(
            head,
        ),
{
    let d = detected(arena, head, apple);
    let near = reaches(arena, head, apple);
    let inside = arena.in_bounds(head);
    let food = seq![GameEvent::FoodReached];
    let out = seq![GameEvent::BoundaryExceeded];
    let none = Seq::<GameEvent>::empty();
    if near && !inside {
        assert(d =~= seq![GameEvent::FoodReached, GameEvent::BoundaryExceeded]);
        assert(d.drop_first() =~= out);
        assert(d[1] == GameEvent::BoundaryExceeded);
    } else if near {
        assert(d =~= food);
    } else if !inside {
        assert(d =~= out);
        assert(d[0] == GameEvent::BoundaryExceeded);
    } else {
        assert(d =~= none);
    }
    assert(food.drop_first() =~= none);
    assert(out.drop_first() =~= none);
    reveal_with_fuel(count, 3);
}

/// One cell for each of `n` events, each within the grid.
pub open spec fn valid_picks(arena: Arena, picks: Seq<(int, int)>, n: int) -> bool {
    &&& picks.len() == n
    &&& forall|k: int|
        0 <= k < n ==> 0 <= (#[trigger] picks[k]).0 < arena.cells_x() && 0 <= picks[k].1
            < arena.cells_y()
}

impl WorldView {
    /// The world in the course of a pass over `batch`, after its first `n`
    /// events: the queue is emptied, then each event is handled in turn, the
    /// `k`-th with the cell `picks[k]` for the apple, should it be eaten.
    pub open spec fn after(
        self,
        batch: Seq<GameEvent>,
        picks: Seq<(int, int)>,
        n: nat,
    ) -> WorldView
        decreases n,
    {
        if n == 0 {
            WorldView { events: Seq::empty(), ..self }
        } else {
            self.after(batch, picks, (n - 1) as nat).handled(
                batch[n - 1],
                picks[n - 1].0,
                picks[n - 1].1,
            )
        }
    }

    /// The sounds asked for in the course of a pass, after its first `n` events.
    pub open spec fn cues_after(
        self,
        batch: Seq<GameEvent>,
        picks: Seq<(int, int)>,
        n: nat,
    ) -> Seq<Cue>
        decreases n,
    {
        if n == 0 {
            Seq::empty()
        } else {
            let sooner = self.cues_after(batch, picks, (n - 1) as nat);
            match self.after(batch, picks, (n - 1) as nat).cue(batch[n - 1]) {
                Some(c) => sooner.push(c),
                None => sooner,
            }
        }
    }

    /// The world after one pass over the events that wait.
    pub open spec fn passed(self, picks: Seq<(int, int)>) -> WorldView {
        self.after(self.events, picks, self.events.len())
    }

    /// The sounds that one pass asks for.
    pub open spec fn pass_cues(self, picks: Seq<(int, int)>) -> Seq<Cue> {
        self.cues_after(self.events, picks, self.events.len())
    }

    /// The world after the keys and the clock of one frame, before the
    /// events of the frame are handled.
    pub open spec fn moved(self, keys: PressedKeys, delta: u64) -> WorldView {
        self.intended(keys).clocked(delta)
    }

    /// The score and the table have room for what the events that wait may add.
    pub open spec fn has_room(self) -> bool {
        &&& self.score + count(self.events, GameEvent::FoodReached) <= usize::MAX
        &&& self.bodies.len() + count(self.events, GameEvent::GrowthRequested) <= MAX_CHAIN
    }

    /// Between two frames: sound, with the head inside the arena and no
    /// event waiting.
    pub open spec fn at_rest(self) -> bool {
        &&& self.sound()
        &&& self.head_inside()
        &&& self.events.len() == 0
    }
}

/// The course of a pass depends on the cells of the events handled so far only.
pub proof fn lemma_after_prefix(
    w: WorldView,
    batch: Seq<GameEvent>,
    p: Seq<(int, int)>,
    q: Seq<(int, int)>,
    n: nat,
)
    requires
        n <= p.len(),
        n <= q.len(),
        forall|k: int| 0 <= k < n ==> p[k] == q[k],
    ensures
        w.after(batch, p, n) == w.after(batch, q, n),
        w.cues_after(batch, p, n) == w.cues_after(batch, q, n),
    decreases n,
{
    if n > 0 {
        lemma_after_prefix(w, batch, p, q, (n - 1) as nat);
    }
}

impl World {
    /// One pass of the event bus. The events that wait are taken from the
    /// queue and handled one by one, in order; those emitted meanwhile wait
    /// for the next pass. The sounds asked for are returned in order.
    pub fn process_events(&mut self) -> (cues: Vec<Cue>)
        requires
            old(self)@.sound(),
            old(self)@.has_room(),
        ensures
            exists|picks: Seq<(int, int)>|
                valid_picks(old(self).arena, picks, old(self)@.events.len() as int)
                    && final(self)@ == #[trigger] old(self)@.passed(picks)
                    && cues@ == old(self)@.pass_cues(picks),
            final(self)@.sound(),
            final(self)@.arena == old(self)@.arena,
            final(self)@.timer == old(self)@.timer,
            final(self)@.apple is Some == old(self)@.apple is Some,
            final(self)@.score == old(self)@.score + if old(self)@.apple is Some {
                count(old(self)@.events, GameEvent::FoodReached)
            } else {
                0
            },
            final(self)@.events.len() <= count(old(self)@.events, GameEvent::FoodReached),
            forall|k: int|
                0 <= k < final(self)@.events.len() ==> final(self)@.events[k]
                    == GameEvent::GrowthRequested,
            final(self)@.snake is Some == (old(self)@.snake is Some
                && !old(self)@.events.contains(GameEvent::BoundaryExceeded)),
            final(self)@.snake is Some ==> {
                &&& final(self)@.snake.unwrap().position == old(self)@.snake.unwrap().position
                &&& final(self)@.snake.unwrap().direction == old(self)@.snake.unwrap().direction
            },
            final(self)@.bodies.len() <= old(self)@.bodies.len() + count(
                old(self)@.events,
                GameEvent::GrowthRequested,
            ),
            old(self)@.intact() ==> final(self)@.intact(),
    {
        let mut batch: Vec<GameEvent> = Vec::new();
        std::mem::swap(&mut batch, &mut self.events);
        let ghost start = old(self)@;
        let ghost mut picks: Seq<(int, int)> = Seq::empty();
        let mut cues: Vec<Cue> = Vec::new();
        let n: usize = batch.len();
        let mut i: usize = 0;
        assert(self@.events =~= Seq::empty());
        assert(self@ == start.after(batch@, picks, 0));
        assert(batch@.skip(0) =~= batch@);
        while i < n
            invariant
                i <= n,
                n == batch@.len(),
                batch@ == start.events,
                start == old(self)@,
                start.arena.wf(),
                valid_picks(start.arena, picks, i as int),
                self@ == start.after(batch@, picks, i as nat),
                cues@ == start.cues_after(batch@, picks, i as nat),
                self@.sound(),
                self@.arena == start.arena,
                self@.timer == start.timer,
                self@.apple is Some == start.apple is Some,
                self@.score + (if start.apple is Some {
                    count(batch@.skip(i as int), GameEvent::FoodReached)
                } else {
                    0
                }) == start.score + if start.apple is Some {
                    count(batch@, GameEvent::FoodReached)
                } else {
                    0
                },
                start.score + count(batch@, GameEvent::FoodReached) <= usize::MAX,
                self@.events.len() + count(batch@.skip(i as int), GameEvent::FoodReached) <= count(
                    batch@,
                    GameEvent::FoodReached,
                ),
                forall|k: int|
                    0 <= k < self@.events.len() ==> self@.events[k] == GameEvent::GrowthRequested,
                self@.snake is Some == (start.snake is Some && forall|j: int|
                    0 <= j < i ==> batch@[j] != GameEvent::BoundaryExceeded),
                self@.snake is Some ==> self@.snake.unwrap().position
                    == start.snake.unwrap().position && self@.snake.unwrap().direction
                    == start.snake.unwrap().direction,
                self@.bodies.len() + count(batch@.skip(i as int), GameEvent::GrowthRequested)
                    <= start.bodies.len() + count(batch@, GameEvent::GrowthRequested),
                start.bodies.len() + count(batch@, GameEvent::GrowthRequested) <= MAX_CHAIN,
                start.intact() ==> self@.intact(),
            decreases n - i,
        {
            let event = batch[i];
            let ghost before = self@;
            let ghost sooner = picks;
            proof {
                let rest = batch@.skip(i as int);
                assert(rest[0] == event);
                assert(rest.drop_first() =~= batch@.skip(i + 1));
                if event == GameEvent::GrowthRequested {
                    lemma_sound_can_grow(before);
                }
            }
            let cue = self.dispatch(event);
            proof {
                let (cx, cy) = choose|cx: int, cy: int|
                    0 <= cx < start.arena.cells_x() && 0 <= cy < start.arena.cells_y() && self@
                        == #[trigger] before.handled(event, cx, cy);
                picks = sooner.push((cx, cy));
                lemma_after_prefix(start, batch@, sooner, picks, i as nat);
                if before.intact() {
                    lemma_chain_stays_intact(before, event, cx, cy);
                }
                match event {
                    GameEvent::FoodReached => {
                        lemma_consumed_sound(before, cx, cy);
                    },
                    GameEvent::BoundaryExceeded => {
                        lemma_terminated_sound(before);
                    },
                    GameEvent::GrowthRequested => {
                        lemma_grown_sound(before);
                    },
                }
            }
            if let Some(c) = cue {
                cues.push(c);
            }
            i = i + 1;
        }
        proof {
            assert(batch@.skip(n as int) =~= Seq::<GameEvent>::empty());
            assert(self@ == start.passed(picks));
            if start.events.contains(GameEvent::BoundaryExceeded) {
                let j = choose|j: int|
                    0 <= j < start.events.len() && start.events[j] == GameEvent::BoundaryExceeded;
                assert(batch@[j] == GameEvent::BoundaryExceeded);
            }
        }
        cues
    }
    /// Empties the queue in two passes: the first handles what waits and may
    /// emit requests for growth, the second handles those, and they emit
    /// nothing.
    pub fn drain_events(&mut self) -> (cues: Vec<Cue>)
        requires
            old(self)@.sound(),
            old(self)@.score + count(old(self)@.events, GameEvent::FoodReached) <= usize::MAX,
            old(self)@.bodies.len() + count(old(self)@.events, GameEvent::FoodReached) + count(
                old(self)@.events,
                GameEvent::GrowthRequested,
            ) <= MAX_CHAIN,
        ensures
            exists|p: Seq<(int, int)>, q: Seq<(int, int)>|
                valid_picks(old(self).arena, p, old(self)@.events.len() as int)
                    && final(self)@ == #[trigger] old(self)@.passed(p).passed(q)
                    && cues@ == old(self)@.pass_cues(p) + old(self)@.passed(p).pass_cues(q),
            final(self)@.sound(),
            final(self)@.events.len() == 0,
            final(self)@.arena == old(self)@.arena,
            final(self)@.timer == old(self)@.timer,
            final(self)@.apple is Some == old(self)@.apple is Some,
            final(self)@.score == old(self)@.score + if old(self)@.apple is Some {
                count(old(self)@.events, GameEvent::FoodReached)
            } else {
                0
            },
            final(self)@.snake is Some == (old(self)@.snake is Some
                && !old(self)@.events.contains(GameEvent::BoundaryExceeded)),
            final(self)@.snake is Some ==> {
                &&& final(self)@.snake.unwrap().position == old(self)@.snake.unwrap().position
                &&& final(self)@.snake.unwrap().direction == old(self)@.snake.unwrap().direction
            },
            final(self)@.bodies.len() <= old(self)@.bodies.len() + count(
                old(self)@.events,
                GameEvent::FoodReached,
            ) + count(old(self)@.events, GameEvent::GrowthRequested),
            old(self)@.intact() ==> final(self)@.intact(),
    {
        proof {
            lemma_count_bounded(self@.events, GameEvent::GrowthRequested);
        }
        let mut cues = self.process_events();
        let ghost mid = self@;
        let ghost first = cues@;
        let ghost p = choose|p: Seq<(int, int)>|
            valid_picks(old(self).arena, p, old(self)@.events.len() as int) && mid
                == #[trigger] old(self)@.passed(p) && first == old(self)@.pass_cues(p);
        proof {
            lemma_count_bounded(mid.events, GameEvent::GrowthRequested);
            lemma_count_none(mid.events, GameEvent::FoodReached);
            if mid.events.contains(GameEvent::BoundaryExceeded) {
                let j = choose|j: int|
                    0 <= j < mid.events.len() && mid.events[j] == GameEvent::BoundaryExceeded;
                assert(mid.events[j] == GameEvent::GrowthRequested);
            }
        }
        let mut more = self.process_events();
        let ghost second = more@;
        let ghost q = choose|q: Seq<(int, int)>|
            valid_picks(mid.arena, q, mid.events.len() as int)
                && self@ == #[trigger] mid.passed(q) && second == mid.pass_cues(q);
        cues.append(&mut more);
        assert(self@ == old(self)@.passed(p).passed(q));
        cues
    }

    /// One frame: the keys set the head's direction, the clock is ticked and
    /// the snake takes a step if it fires, and the events of the step are
    /// handled. The sounds asked for are returned in order.
    pub fn update(&mut self, keys: &PressedKeys, delta_nanos: u64) -> (cues: Vec<Cue>)
        requires
            old(self)@.at_rest(),
            old(self)@.score < usize::MAX,
            old(self)@.bodies.len() < MAX_CHAIN,
        ensures
            exists|p: Seq<(int, int)>, q: Seq<(int, int)>|
                valid_picks(
                    old(self).arena,
                    p,
                    old(self)@.moved(*keys, delta_nanos).events.len() as int,
                ) && final(self)@ == #[trigger] old(self)@.moved(*keys, delta_nanos).passed(
                    p,
                ).passed(q) && cues@ == old(self)@.moved(*keys, delta_nanos).pass_cues(p) + old(
                    self,
                )@.moved(*keys, delta_nanos).passed(p).pass_cues(q),
            final(self)@.at_rest(),
            final(self)@.snake is Some == (old(self)@.snake is Some
                && old(self)@.moved(*keys, delta_nanos).head_inside()),
            final(self)@.score == old(self)@.score + if old(self)@.apple is Some {
                count(old(self)@.moved(*keys, delta_nanos).events, GameEvent::FoodReached)
            } else {
                0
            },
            final(self)@.score <= old(self)@.score + 1,
            final(self)@.bodies.len() <= old(self)@.bodies.len() + 1,
            final(self)@.arena == old(self)@.arena,
            old(self)@.intact() ==> final(self)@.intact(),
    {
        proof {
            lemma_intended_sound(self@, *keys);
            if self@.intact() {
                lemma_chain_stays_intact(self@, GameEvent::FoodReached, 0, 0);
            }
        }
        self.snake_movement(keys);
        let ghost turned = self@;
        proof {
            lemma_sound_can_step(turned);
        }
        self.snake_movement_timer(delta_nanos);
        let ghost mid = self@;
        proof {
            let ticked = WorldView { timer: turned.timer.ticked(delta_nanos), ..turned };
            assert(ticked.sound());
            assert(ticked.head_inside());
            if turned.timer.fires(delta_nanos) {
                lemma_stepped_sound(ticked);
                lemma_sound_can_step(ticked);
                if ticked.intact() {
                    lemma_chain_stays_intact(ticked, GameEvent::FoodReached, 0, 0);
                }
                if ticked.snake is Some && ticked.apple is Some {
                    let s = ticked.snake.unwrap();
                    let head = advanced(s.position@, s.direction, ticked.arena.unit());
                    let found = detected(ticked.arena, head, ticked.apple.unwrap().position@);
                    lemma_detected_once(ticked.arena, head, ticked.apple.unwrap().position@);
                    assert(mid.events =~= found);
                    lemma_sound_can_step(ticked);
                }
            }
            assert(mid.sound());
        }
        self.drain_events()
    }
}

} // verus!
