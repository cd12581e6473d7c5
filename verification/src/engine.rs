//! The step engine: one step moves the head by one cell and lets each segment
//! take the place and the direction of the one before it.

use vstd::prelude::*;
use crate::arena::Arena;
use crate::chain::{distinct, lemma_walk_follows_leader, source};
use crate::direction::{is_right_turn, spec_is_right_turn, SnakeMovement};
use crate::snake::{fits, lookup, Apple, BodySnake, GameEvent, Look, Snake};
use crate::vector::{Point, Vector};

verus! {

/// What is handed down the chain: the place and the direction that the next
/// segment takes over.
pub struct Carried {
    pub position: Vector,
    pub direction: SnakeMovement,
}

/// What a segment becomes when it takes over `carried`. It moves to the
/// carried place. Where the carried direction differs from its own it turns:
/// it adopts the direction, is rotated as a right turn or as a left turn, and
/// looks like a corner. Where they agree it is a straight piece. The last
/// segment of the chain always counts as turning right and keeps its look.
pub open spec fn follow(segment: BodySnake, carried: Carried, last: bool) -> BodySnake {
    if segment.direction != carried.direction {
        BodySnake {
            position: carried.position,
            direction: carried.direction,
            rotation: if last || spec_is_right_turn(carried.direction, segment.direction) {
                carried.direction.spec_facing()
            } else {
                carried.direction.spec_left_corner()
            },
            look: if last {
                segment.look
            } else {
                Look::Corner
            },
        }
    } else if !last {
        BodySnake {
            position: carried.position,
            direction: segment.direction,
            rotation: segment.direction.spec_facing(),
            look: Look::Body,
        }
    } else {
        BodySnake {
            position: carried.position,
            direction: segment.direction,
            rotation: segment.rotation,
            look: segment.look,
        }
    }
}

/// The state of the walk down the chain: the table of segments, and what is
/// handed to the next one.
pub struct Walk {
    pub bodies: Seq<Option<BodySnake>>,
    pub carried: Carried,
}

/// The walk after the first `n` identifiers of `tail`. An identifier that
/// finds no segment is passed over: the table and what is carried stay.
pub open spec fn walk(
    bodies: Seq<Option<BodySnake>>,
    tail: Seq<usize>,
    start: Carried,
    n: nat,
) -> Walk
    decreases n,
{
    if n == 0 {
        Walk { bodies, carried: start }
    } else {
        let before = walk(bodies, tail, start, (n - 1) as nat);
        let id = tail[n - 1];
        match lookup(before.bodies, id) {
            Some(segment) => Walk {
                bodies: before.bodies.update(
                    id as int,
                    Some(follow(segment, before.carried, n == tail.len())),
                ),
                carried: Carried { position: segment.position, direction: segment.direction },
            },
            None => before,
        }
    }
}

/// Where the head is after one step from `position` along `direction`.
pub open spec fn advanced(position: Point, direction: SnakeMovement, unit: int) -> Point {
    position.plus(direction.offset().scale(unit))
}

/// One step along a direction changes one coordinate, by one cell.
pub proof fn lemma_advanced_by_one_cell(position: Point, direction: SnakeMovement, unit: int)
    ensures
        advanced(position, direction, unit) == match direction {
            SnakeMovement::Up => Point { x: position.x, y: position.y + unit },
            SnakeMovement::Down => Point { x: position.x, y: position.y - unit },
            SnakeMovement::Left => Point { x: position.x - unit, y: position.y },
            SnakeMovement::Right => Point { x: position.x + unit, y: position.y },
        },
        unit >= 0 ==> advanced(position, direction, unit).minus(position).reach() == unit,
{
    match direction {
        SnakeMovement::Up => {},
        SnakeMovement::Down => {},
        SnakeMovement::Left => {},
        SnakeMovement::Right => {},
    }
}

/// The head has reached the apple: they are less than one cell apart.
pub open spec fn reaches(arena: Arena, head: Point, apple: Point) -> bool {
    head.minus(apple).norm_sq() < arena.unit() * arena.unit()
}

/// What a step detects with the head at `head`: first that the apple is
/// reached, then that the arena is left.
pub open spec fn detected(arena: Arena, head: Point, apple: Point) -> Seq<GameEvent> {
    (if reaches(arena, head, apple) {
        seq![GameEvent::FoodReached]
    } else {
        Seq::<GameEvent>::empty()
    }) + (if !arena.in_bounds(head) {
        seq![GameEvent::BoundaryExceeded]
    } else {
        Seq::<GameEvent>::empty()
    })
}

/// Whether the head is less than one cell away from the apple.
pub fn is_near(arena: &Arena, head: Vector, apple: Vector) -> (b: bool)
    requires
        arena.wf(),
    ensures
        b == reaches(*arena, head@, apple@),
{
    let unit: i128 = arena.snake_size as i128;
    let dx: i128 = head.x as i128 - apple.x as i128;
    let dy: i128 = head.y as i128 - apple.y as i128;
    if dx >= unit || dx <= -unit || dy >= unit || dy <= -unit {
        proof {
            let (u, a, b) = (unit as int, dx as int, dy as int);
            assert(a * a + b * b >= u * u) by (nonlinear_arith)
                requires
                    u > 0,
                    a >= u || a <= -u || b >= u || b <= -u,
            ;
        }
        return false;
    }
    proof {
        let (u, a, b) = (unit as int, dx as int, dy as int);
        assert(0 <= a * a < u * u && 0 <= b * b < u * u && u * u <= 0x4000_0000_0000_0000)
            by (nonlinear_arith)
            requires
                0 < u < 0x8000_0000,
                -u < a < u,
                -u < b < u,
        ;
    }
    dx * dx + dy * dy < unit * unit
}

/// The point `distance` away from `position` along `direction`; against it,
/// where the distance is negative.
pub fn displaced(position: Vector, direction: SnakeMovement, distance: i64) -> (p: Vector)
    requires
        fits(position@.plus(direction.offset().scale(distance as int))),
    ensures
        p@ == position@.plus(direction.offset().scale(distance as int)),
{
    match direction {
        SnakeMovement::Up => Vector { x: position.x, y: position.y + distance },
        SnakeMovement::Down => Vector { x: position.x, y: position.y - distance },
        SnakeMovement::Left => Vector { x: position.x - distance, y: position.y },
        SnakeMovement::Right => Vector { x: position.x + distance, y: position.y },
    }
}

/// The step of one segment: it takes over what is carried and hands on what it had.
fn follow_leader(segment: BodySnake, carried: Carried, last: bool) -> (r: (BodySnake, Carried))
    ensures
        r.0 == follow(segment, carried, last),
        r.1 == (Carried { position: segment.position, direction: segment.direction }),
{
    let handed = Carried { position: segment.position, direction: segment.direction };
    let mut moved = segment;
    moved.position = carried.position;
    if segment.direction != carried.direction {
        moved.direction = carried.direction;
        if is_right_turn(moved.direction, segment.direction) || last {
            moved.rotation = moved.direction.facing();
        } else {
            moved.rotation = moved.direction.left_corner();
        }
        if !last {
            moved.look = Look::Corner;
        }
    } else if !last {
        moved.rotation = moved.direction.facing();
        moved.look = Look::Body;
    }
    (moved, handed)
}

/// One step of the snake. The head moves by one cell along its direction and
/// is rotated to face it. Down the chain each segment takes the place and the
/// direction that the one before it had, the first those of the head before
/// the move; an identifier that finds no segment is passed over. Then the
/// events that the new place of the head gives rise to are put at the end of
/// `events`.
///
/// The table after the step is that of the walk down the chain. Where no
/// identifier occurs twice this says, segment by segment: each one that is
/// there follows what the nearest one before it had, and nothing else changes.
pub fn step(
    arena: &Arena,
    snake: &mut Snake,
    bodies: &mut Vec<Option<BodySnake>>,
    apple: &Apple,
    events: &mut Vec<GameEvent>,
)
    requires
        arena.wf(),
        fits(advanced(old(snake).position@, old(snake).direction, arena.unit())),
    ensures
        final(snake).position@ == advanced(
            old(snake).position@,
            old(snake).direction,
            arena.unit(),
        ),
        final(snake).direction == old(snake).direction,
        final(snake).rotation == old(snake).direction.spec_facing(),
        final(snake).tail@ == old(snake).tail@,
        final(bodies)@ == walk(
            old(bodies)@,
            old(snake).tail@,
            Carried { position: old(snake).position, direction: old(snake).direction },
            old(snake).tail@.len(),
        ).bodies,
        final(events)@ == old(events)@ + detected(*arena, final(snake).position@, apple.position@),
        distinct(old(snake).tail@) ==> {
            let start = Carried { position: old(snake).position, direction: old(snake).direction };
            let tail = old(snake).tail@;
            &&& final(bodies)@.len() == old(bodies)@.len()
            &&& forall|i: int|
                0 <= i < tail.len() ==> #[trigger] lookup(final(bodies)@, tail[i]) == match lookup(
                    old(bodies)@,
                    tail[i],
                ) {
                    Some(b) => Some(
                        follow(b, source(old(bodies)@, tail, start, i as nat), i + 1 == tail.len()),
                    ),
                    None => None,
                }
            &&& forall|k: usize|
                !tail.contains(k) ==> #[trigger] lookup(final(bodies)@, k) == lookup(
                    old(bodies)@,
                    k,
                )
        },
{
    let ghost start = Carried { position: snake.position, direction: snake.direction };
    let ghost table = bodies@;
    let mut carried = Carried { position: snake.position, direction: snake.direction };
    snake.position = displaced(snake.position, snake.direction, arena.cell_size());
    snake.rotation = snake.direction.facing();

    let n: usize = snake.tail.len();
    let mut i: usize = 0;
    while i < n
        invariant
            i <= n,
            n == snake.tail@.len(),
            snake.tail@ == old(snake).tail@,
            bodies@ == walk(table, snake.tail@, start, i as nat).bodies,
            carried == walk(table, snake.tail@, start, i as nat).carried,
        decreases n - i,
    {
        let id: usize = snake.tail[i];
        if id < bodies.len() {
            if let Some(segment) = bodies[id] {
                let last = i == n - 1;
                let r = follow_leader(segment, carried, last);
                bodies.set(id, Some(r.0));
                carried = r.1;
            }
        }
        i = i + 1;
    }

    if is_near(arena, snake.position, apple.position) {
        events.push(GameEvent::FoodReached);
    }
    if !arena.contains(snake.position) {
        events.push(GameEvent::BoundaryExceeded);
    }
    assert(events@ =~= old(events)@ + detected(*arena, snake.position@, apple.position@));
    proof {
        if distinct(snake.tail@) {
            lemma_walk_follows_leader(table, snake.tail@, start, n as nat);
        }
    }
}

} // verus!
