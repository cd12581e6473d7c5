//! The world of one round: the arena, the snake, the table of its segments,
//! the apple, the score, the movement clock and the queue of events; and the
//! systems that run on it once per frame.

use vstd::prelude::*;
use crate::arena::Arena;
use crate::clock::MovementTimer;
use crate::direction::{is_cardinal, Rotation, SnakeMovement};
use crate::engine::{advanced, detected, displaced, step, walk, Carried};
use crate::input::{resolved, PressedKeys};
use crate::random::random_cell;
use crate::score::Score;
use crate::snake::{
    fits, lookup, vector_of, Apple, BodySnake, Cue, GameEvent, Look, Snake, SnakeView,
};
use crate::vector::{Point, Vector};

verus! {

/// The state of one round.
#[derive(Debug)]
pub struct World {
    pub arena: Arena,
    /// The head, until the round is over.
    pub snake: Option<Snake>,
    /// The table of segments. An identifier is an index into it; an entry that
    /// is `None` is a segment that is no longer there.
    pub bodies: Vec<Option<BodySnake>>,
    pub apple: Option<Apple>,
    pub score: Score,
    pub timer: MovementTimer,
    /// The events that wait for the next pass, in the order they were emitted.
    pub events: Vec<GameEvent>,
}

/// The model of the world.
pub struct WorldView {
    pub arena: Arena,
    pub snake: Option<SnakeView>,
    pub bodies: Seq<Option<BodySnake>>,
    pub apple: Option<Apple>,
    pub score: int,
    pub timer: MovementTimer,
    pub events: Seq<GameEvent>,
}

impl View for World {
    type V = WorldView;

    open spec fn view(&self) -> WorldView {
        WorldView {
            arena: self.arena,
            snake: match self.snake {
                Some(s) => Some(s@),
                None => None,
            },
            bodies: self.bodies@,
            apple: self.apple,
            score: self.score@,
            timer: self.timer,
            events: self.events@,
        }
    }
}

/// The segment that growth appends behind `last`: one cell further back, with
/// the same direction and rotation, looking like the end of the tail.
pub open spec fn appended(last: BodySnake, unit: int) -> BodySnake {
    BodySnake {
        position: vector_of(last.position@.minus(last.direction.offset().scale(unit))),
        direction: last.direction,
        rotation: last.rotation,
        look: Look::TailEnd,
    }
}

impl WorldView {
    /// The world at the start of a round, with the apple in column `cx` and
    /// row `cy`: the head half a cell left of the origin and moving right, one
    /// segment behind it, no score, nothing gathered by the clock, no event.
    pub open spec fn initial(arena: Arena, cx: int, cy: int) -> WorldView {
        WorldView {
            arena,
            snake: Some(
                SnakeView {
                    position: vector_of(arena.head_start()),
                    direction: SnakeMovement::Right,
                    rotation: Rotation::Deg0,
                    tail: seq![0usize],
                },
            ),
            bodies: seq![
                Some(
                    BodySnake {
                        position: vector_of(
                            Point { x: -arena.half_unit() - arena.unit(), y: 0 },
                        ),
                        direction: SnakeMovement::Right,
                        rotation: Rotation::Deg0,
                        look: Look::TailEnd,
                    },
                ),
            ],
            apple: Some(Apple { position: vector_of(arena.cell_position(cx, cy)) }),
            score: 0,
            timer: MovementTimer {
                interval_nanos: crate::constants::SNAKE_NANOS_PER_MOVEMENT,
                elapsed_nanos: 0,
            },
            events: Seq::empty(),
        }
    }

    /// The world after the keys of one frame: the head takes the direction
    /// asked for, if one is. Nothing moves.
    pub open spec fn intended(self, keys: PressedKeys) -> WorldView {
        match self.snake {
            Some(s) => WorldView {
                snake: Some(SnakeView { direction: resolved(s.direction, keys), ..s }),
                ..self
            },
            None => self,
        }
    }

    /// The world after one step. Without a head or without an apple nothing happens.
    pub open spec fn stepped(self) -> WorldView {
        match (self.snake, self.apple) {
            (Some(s), Some(a)) => {
                let head = advanced(s.position@, s.direction, self.arena.unit());
                WorldView {
                    snake: Some(
                        SnakeView {
                            position: vector_of(head),
                            rotation: s.direction.spec_facing(),
                            ..s
                        },
                    ),
                    bodies: walk(
                        self.bodies,
                        s.tail,
                        Carried { position: s.position, direction: s.direction },
                        s.tail.len(),
                    ).bodies,
                    events: self.events + detected(self.arena, head, a.position@),
                    ..self
                }
            },
            _ => self,
        }
    }

    /// The world after the clock was ticked by `delta` nanoseconds: one step
    /// if it fired, none if it did not.
    pub open spec fn clocked(self, delta: u64) -> WorldView {
        let ticked = WorldView { timer: self.timer.ticked(delta), ..self };
        if self.timer.fires(delta) {
            ticked.stepped()
        } else {
            ticked
        }
    }

    /// The world after the apple was eaten and put into column `cx` and row
    /// `cy`: one more on the score, and growth is asked for. Without an apple
    /// nothing happens.
    pub open spec fn consumed(self, cx: int, cy: int) -> WorldView {
        match self.apple {
            Some(_) => WorldView {
                apple: Some(Apple { position: vector_of(self.arena.cell_position(cx, cy)) }),
                score: self.score + 1,
                events: self.events.push(GameEvent::GrowthRequested),
                ..self
            },
            None => self,
        }
    }

    /// The world after the round has ended: the head is gone, and the
    /// segments with it. Without a head nothing happens.
    pub open spec fn terminated(self) -> WorldView {
        match self.snake {
            Some(_) => WorldView { snake: None, bodies: Seq::empty(), ..self },
            None => self,
        }
    }

    /// The last segment of the chain, if there is a head, the chain is not
    /// empty and its last identifier finds a segment.
    pub open spec fn tail_end(self) -> Option<BodySnake> {
        match self.snake {
            Some(s) => if s.tail.len() > 0 {
                lookup(self.bodies, s.tail.last())
            } else {
                None
            },
            None => None,
        }
    }

    /// The world after growth: the last segment now looks like a piece of the
    /// body, and a new one follows it. Without a last segment nothing happens.
    pub open spec fn grown(self) -> WorldView {
        match self.tail_end() {
            Some(last) => {
                let s = self.snake.unwrap();
                WorldView {
                    snake: Some(SnakeView { tail: s.tail.push(self.bodies.len() as usize), ..s }),
                    bodies: self.bodies.update(
                        s.tail.last() as int,
                        Some(BodySnake { look: Look::Body, ..last }),
                    ).push(Some(appended(last, self.arena.unit()))),
                    ..self
                }
            },
            None => self,
        }
    }

    /// The world after one event was handled.
    pub open spec fn handled(self, event: GameEvent, cx: int, cy: int) -> WorldView {
        match event {
            GameEvent::FoodReached => self.consumed(cx, cy),
            GameEvent::BoundaryExceeded => self.terminated(),
            GameEvent::GrowthRequested => self.grown(),
        }
    }

    /// The sound that handling one event asks for.
    pub open spec fn cue(self, event: GameEvent) -> Option<Cue> {
        match event {
            GameEvent::FoodReached => if self.apple is Some {
                Some(Cue::Coin)
            } else {
                None
            },
            GameEvent::BoundaryExceeded => if self.snake is Some {
                Some(Cue::Crunch)
            } else {
                None
            },
            GameEvent::GrowthRequested => None,
        }
    }

    /// The head can take one more step: its next place has machine coordinates.
    pub open spec fn can_step(self) -> bool {
        self.snake is Some && self.apple is Some ==> fits(
            advanced(
                self.snake.unwrap().position@,
                self.snake.unwrap().direction,
                self.arena.unit(),
            ),
        )
    }

    /// The chain can take one more segment: its place has machine
    /// coordinates, and the table has room for it.
    pub open spec fn can_grow(self) -> bool {
        self.tail_end() is Some ==> {
            let last = self.tail_end().unwrap();
            &&& fits(last.position@.minus(last.direction.offset().scale(self.arena.unit())))
            &&& self.bodies.len() < usize::MAX
        }
    }
}

impl World {
    /// A new round with the apple in column `cx` and row `cy`.
    pub fn new_game(arena: Arena, cx: i64, cy: i64) -> (w: World)
        requires
            arena.wf(),
            0 <= cx < arena.cells_x(),
            0 <= cy < arena.cells_y(),
        ensures
            w@ == WorldView::initial(arena, cx as int, cy as int),
            w.snake.unwrap().position@ == arena.head_start(),
            w.bodies@[0].unwrap().position@ == (Point {
                x: -arena.half_unit() - arena.unit(),
                y: 0,
            }),
            w.apple.unwrap().position@ == arena.cell_position(cx as int, cy as int),
            w@.sound(),
            w@.head_inside(),
            w@.intact(),
    {
        proof {
            crate::soundness::lemma_initial_at_rest(arena, cx as int, cy as int);
        }
        let unit: i64 = arena.cell_size();
        let half: i64 = unit / 2;
        let mut tail: Vec<usize> = Vec::new();
        tail.push(0);
        let mut bodies: Vec<Option<BodySnake>> = Vec::new();
        bodies.push(
            Some(
                BodySnake {
                    position: Vector { x: -half - unit, y: 0 },
                    direction: SnakeMovement::Right,
                    rotation: Rotation::Deg0,
                    look: Look::TailEnd,
                },
            ),
        );
        let w = World {
            arena,
            snake: Some(
                Snake {
                    position: Vector { x: -half, y: 0 },
                    direction: SnakeMovement::Right,
                    rotation: Rotation::Deg0,
                    tail,
                },
            ),
            bodies,
            apple: Some(Apple { position: arena.cell_center(cx, cy) }),
            score: Score::new(),
            timer: MovementTimer::standard(),
            events: Vec::new(),
        };
        assert(w@.snake.unwrap().tail =~= seq![0usize]);
        assert(w@.bodies =~= WorldView::initial(arena, cx as int, cy as int).bodies);
        assert(w@.events =~= Seq::empty());
        w
    }

    /// A new round with the apple in a cell drawn at random.
    pub fn spawn_game(arena: Arena) -> (w: World)
        requires
            arena.wf(),
        ensures
            exists|cx: int, cy: int|
                0 <= cx < arena.cells_x() && 0 <= cy < arena.cells_y() && w@
                    == #[trigger] WorldView::initial(arena, cx, cy),
            arena.in_bounds(w.apple.unwrap().position@),
            arena.on_grid(w.apple.unwrap().position@),
            w@.sound(),
            w@.head_inside(),
            w@.intact(),
    {
        let cells = arena.cell_counts();
        let cx = random_cell(cells.0);
        let cy = random_cell(cells.1);
        proof {
            arena.lemma_cells_lie_inside(cx as int, cy as int);
        }
        World::new_game(arena, cx, cy)
    }

    /// The direction intent resolver: the head takes the direction that the
    /// keys ask for. With no key held, or without a head, nothing changes.
    pub fn snake_movement(&mut self, keys: &PressedKeys)
        ensures
            final(self)@ == old(self)@.intended(*keys),
            keys.intent() is None ==> final(self)@ == old(self)@,
            final(self).snake is Some ==> is_cardinal(
                final(self).snake.unwrap().direction.offset(),
            ),
    {
        if let Some(direction) = keys.resolve() {
            if let Some(snake) = &mut self.snake {
                snake.direction = direction;
            }
        }
    }

    /// One step of the engine. Without a head or without an apple nothing happens.
    pub fn advance(&mut self)
        requires
            old(self).arena.wf(),
            old(self)@.can_step(),
        ensures
            final(self)@ == old(self)@.stepped(),
    {
        if let Some(apple) = self.apple {
            if let Some(snake) = &mut self.snake {
                step(&self.arena, snake, &mut self.bodies, &apple, &mut self.events);
            }
        }
    }

    /// The movement clock and the step engine: the clock is ticked by
    /// `delta_nanos`, and if it fires the snake takes one step, one only,
    /// however many intervals have passed.
    pub fn snake_movement_timer(&mut self, delta_nanos: u64) -> (fired: bool)
        requires
            old(self).arena.wf(),
            old(self).timer.wf(),
            old(self)@.can_step(),
        ensures
            fired == old(self).timer.fires(delta_nanos),
            final(self)@ == old(self)@.clocked(delta_nanos),
            final(self).timer.wf(),
    {
        if !self.timer.tick(delta_nanos) {
            return false;
        }
        self.advance();
        true
    }
    /// The apple is eaten and goes to column `cx` and row `cy`: the score
    /// grows by one, a sound is asked for, and so is growth. Without an apple
    /// nothing happens.
    pub fn eat_apple(&mut self, cx: i64, cy: i64) -> (cue: Option<Cue>)
        requires
            old(self).arena.wf(),
            0 <= cx < old(self).arena.cells_x(),
            0 <= cy < old(self).arena.cells_y(),
            old(self).apple is Some ==> old(self).score@ < usize::MAX,
        ensures
            final(self)@ == old(self)@.consumed(cx as int, cy as int),
            cue == old(self)@.cue(GameEvent::FoodReached),
            old(self).apple is Some ==> {
                &&& final(self).apple is Some
                &&& final(self).apple.unwrap().position@ == old(self).arena.cell_position(
                    cx as int,
                    cy as int,
                )
                &&& old(self).arena.in_bounds(final(self).apple.unwrap().position@)
                &&& old(self).arena.on_grid(final(self).apple.unwrap().position@)
            },
    {
        if self.apple.is_none() {
            return None;
        }
        self.score.increment();
        self.apple = Some(Apple { position: self.arena.cell_center(cx, cy) });
        self.events.push(GameEvent::GrowthRequested);
        Some(Cue::Coin)
    }

    /// The consumption protocol: the apple is eaten and goes to a cell drawn
    /// at random, each axis by itself.
    pub fn listener_get_apple(&mut self) -> (cue: Option<Cue>)
        requires
            old(self).arena.wf(),
            old(self).apple is Some ==> old(self).score@ < usize::MAX,
        ensures
            exists|cx: int, cy: int|
                0 <= cx < old(self).arena.cells_x() && 0 <= cy < old(self).arena.cells_y()
                    && final(self)@ == #[trigger] old(self)@.consumed(cx, cy),
            cue == old(self)@.cue(GameEvent::FoodReached),
            old(self).apple is Some ==> {
                &&& final(self).apple is Some
                &&& old(self).arena.in_bounds(final(self).apple.unwrap().position@)
                &&& old(self).arena.on_grid(final(self).apple.unwrap().position@)
            },
    {
        let cells = self.arena.cell_counts();
        if self.apple.is_none() {
            assert(self@ == self@.consumed(0, 0));
            return None;
        }
        let cx = random_cell(cells.0);
        let cy = random_cell(cells.1);
        let cue = self.eat_apple(cx, cy);
        assert(self@ == old(self)@.consumed(cx as int, cy as int));
        cue
    }

    /// The termination detector's effect: a sound is asked for, and the head
    /// leaves the world with the segments of its chain. Without a head
    /// nothing happens.
    pub fn listener_game_over(&mut self) -> (cue: Option<Cue>)
        ensures
            final(self)@ == old(self)@.terminated(),
            cue == old(self)@.cue(GameEvent::BoundaryExceeded),
            final(self).snake is None,
    {
        if self.snake.is_none() {
            return None;
        }
        self.snake = None;
        self.bodies = Vec::new();
        assert(self@.bodies =~= Seq::empty());
        Some(Cue::Crunch)
    }

    /// The growth protocol: the last segment takes the look of the body, and
    /// a new last segment is appended one cell behind it, with its direction.
    /// Without a head, with an empty chain, or where the last identifier finds
    /// no segment, the request is dropped.
    pub fn listener_new_body_snake_part(&mut self) -> (grew: bool)
        requires
            old(self)@.can_grow(),
        ensures
            final(self)@ == old(self)@.grown(),
            grew == old(self)@.tail_end() is Some,
    {
        let unit: i64 = self.arena.cell_size();
        if let Some(snake) = &mut self.snake {
            let n: usize = snake.tail.len();
            if n > 0 {
                let id: usize = snake.tail[n - 1];
                if id < self.bodies.len() {
                    if let Some(last) = self.bodies[id] {
                        assert(old(self)@.tail_end() == Some(last));
                        proof {
                            lemma_backwards(last.position@, last.direction, unit as int);
                        }
                        let position = displaced(last.position, last.direction, -unit);
                        let mut body = last;
                        body.look = Look::Body;
                        self.bodies.set(id, Some(body));
                        let new_id: usize = self.bodies.len();
                        self.bodies.push(
                            Some(
                                BodySnake {
                                    position,
                                    direction: last.direction,
                                    rotation: last.rotation,
                                    look: Look::TailEnd,
                                },
                            ),
                        );
                        snake.tail.push(new_id);
                        let ghost grown = old(self)@.grown();
                        assert(self@.bodies =~= grown.bodies);
                        assert(self@.snake.unwrap().tail =~= grown.snake.unwrap().tail);
                        return true;
                    }
                }
            }
        }
        false
    }

    /// Hands one event to the handler of its kind.
    pub fn dispatch(&mut self, event: GameEvent) -> (cue: Option<Cue>)
        requires
            old(self).arena.wf(),
            event == GameEvent::FoodReached && old(self).apple is Some ==> old(self).score@
                < usize::MAX,
            event == GameEvent::GrowthRequested ==> old(self)@.can_grow(),
        ensures
            exists|cx: int, cy: int|
                0 <= cx < old(self).arena.cells_x() && 0 <= cy < old(self).arena.cells_y()
                    && final(self)@ == #[trigger] old(self)@.handled(event, cx, cy),
            cue == old(self)@.cue(event),
    {
        match event {
            GameEvent::FoodReached => {
                let cue = self.listener_get_apple();
                let ghost (cx, cy) = choose|cx: int, cy: int|
                    0 <= cx < old(self).arena.cells_x() && 0 <= cy < old(self).arena.cells_y()
                        && self@ == #[trigger] old(self)@.consumed(cx, cy);
                assert(self@ == old(self)@.handled(event, cx, cy));
                cue
            },
            GameEvent::BoundaryExceeded => {
                let cells = self.arena.cell_counts();
                let cue = self.listener_game_over();
                assert(self@ == old(self)@.handled(event, 0, 0));
                cue
            },
            GameEvent::GrowthRequested => {
                let cells = self.arena.cell_counts();
                self.listener_new_body_snake_part();
                assert(self@ == old(self)@.handled(event, 0, 0));
                None
            },
        }
    }
}

/// One cell against a direction is minus one cell along it.
pub proof fn lemma_backwards(position: Point, direction: SnakeMovement, unit: int)
    ensures
        position.plus(direction.offset().scale(-unit)) == position.minus(
            direction.offset().scale(unit),
        ),
{
    match direction {
        SnakeMovement::Up => {},
        SnakeMovement::Down => {},
        SnakeMovement::Left => {},
        SnakeMovement::Right => {},
    }
}

} // verus!
