use snake_game::arena::Arena;
use snake_game::clock::MovementTimer;
use snake_game::direction::{Rotation, SnakeMovement};
use snake_game::score::Score;
use snake_game::snake::{Apple, BodySnake, GameEvent, Look, Snake};
use snake_game::vector::Vector;
use snake_game::world::World;

fn segment(x: i64, y: i64, direction: SnakeMovement, look: Look) -> Option<BodySnake> {
    Some(BodySnake { position: Vector::new(x, y), direction, rotation: direction.facing(), look })
}

fn world(head: (i64, i64), direction: SnakeMovement, bodies: Vec<Option<BodySnake>>, apple: (i64, i64)) -> World {
    let tail: Vec<usize> = (0..bodies.len()).collect();
    World {
        arena: Arena::standard(),
        snake: Some(Snake {
            position: Vector::new(head.0, head.1),
            direction,
            rotation: direction.facing(),
            tail,
        }),
        bodies,
        apple: Some(Apple { position: Vector::new(apple.0, apple.1) }),
        score: Score::new(),
        timer: MovementTimer::standard(),
        events: Vec::new(),
    }
}

#[test]
fn one_step_moves_head_and_single_segment_by_one_cell() {
    // Cell (0,0) is the origin; one cell is 40 units wide.
    let mut w = world(
        (0, 0),
        SnakeMovement::Right,
        vec![segment(-40, 0, SnakeMovement::Right, Look::TailEnd)],
        (-420, -280),
    );
    w.advance();
    let head = w.snake.as_ref().unwrap();
    assert_eq!(head.position, Vector::new(40, 0));
    assert_eq!(head.direction, SnakeMovement::Right);
    assert_eq!(head.rotation, Rotation::Deg0);
    let seg = w.bodies[0].unwrap();
    assert_eq!(seg.position, Vector::new(0, 0));
    assert_eq!(seg.direction, SnakeMovement::Right);
    assert_eq!(seg.look, Look::TailEnd);
    assert_eq!(seg.rotation, Rotation::Deg0);
    assert!(w.events.is_empty());
}

#[test]
fn head_rotation_follows_each_direction() {
    for (d, r, to) in [
        (SnakeMovement::Up, Rotation::Deg90, (0, 40)),
        (SnakeMovement::Down, Rotation::Deg270, (0, -40)),
        (SnakeMovement::Left, Rotation::Deg180, (-40, 0)),
        (SnakeMovement::Right, Rotation::Deg0, (40, 0)),
    ] {
        let mut w = world((0, 0), d, vec![], (-420, -280));
        w.advance();
        let head = w.snake.as_ref().unwrap();
        assert_eq!(head.rotation, r);
        assert_eq!(head.position, Vector::new(to.0, to.1));
    }
}

#[test]
fn segments_follow_the_leader_through_a_right_turn() {
    // The snake moved up and now turns right (clockwise), towards +x.
    let mut w = world(
        (0, 0),
        SnakeMovement::Right,
        vec![
            segment(0, -40, SnakeMovement::Up, Look::Body),
            segment(0, -80, SnakeMovement::Up, Look::Body),
            segment(0, -120, SnakeMovement::Up, Look::TailEnd),
        ],
        (-420, -280),
    );
    w.advance();
    assert_eq!(w.snake.as_ref().unwrap().position, Vector::new(40, 0));
    let first = w.bodies[0].unwrap();
    assert_eq!(first.position, Vector::new(0, 0));
    assert_eq!(first.direction, SnakeMovement::Right);
    assert_eq!(first.look, Look::Corner);
    assert_eq!(first.rotation, Rotation::Deg0);
    let second = w.bodies[1].unwrap();
    assert_eq!(second.position, Vector::new(0, -40));
    assert_eq!(second.direction, SnakeMovement::Up);
    assert_eq!(second.look, Look::Body);
    assert_eq!(second.rotation, Rotation::Deg90);
    let third = w.bodies[2].unwrap();
    assert_eq!(third.position, Vector::new(0, -80));
    assert_eq!(third.direction, SnakeMovement::Up);
    assert_eq!(third.look, Look::TailEnd);

    // One more step: the corner travels down the chain.
    w.advance();
    let first = w.bodies[0].unwrap();
    assert_eq!(first.position, Vector::new(40, 0));
    assert_eq!(first.look, Look::Body);
    assert_eq!(first.rotation, Rotation::Deg0);
    let second = w.bodies[1].unwrap();
    assert_eq!(second.position, Vector::new(0, 0));
    assert_eq!(second.direction, SnakeMovement::Right);
    assert_eq!(second.look, Look::Corner);
    assert_eq!(second.rotation, Rotation::Deg0);
}

#[test]
fn a_left_turn_rotates_the_corner_a_quarter_further() {
    // Moving up, then turning left (counter-clockwise), towards -x.
    let mut w = world(
        (0, 0),
        SnakeMovement::Left,
        vec![
            segment(0, -40, SnakeMovement::Up, Look::Body),
            segment(0, -80, SnakeMovement::Up, Look::TailEnd),
        ],
        (-420, -280),
    );
    w.advance();
    let first = w.bodies[0].unwrap();
    assert_eq!(first.direction, SnakeMovement::Left);
    assert_eq!(first.look, Look::Corner);
    assert_eq!(first.rotation, Rotation::Deg270);
}

#[test]
fn the_last_segment_always_turns_right_and_keeps_its_look() {
    // A left turn that reaches the end of the tail is drawn as a right turn.
    let mut w = world(
        (0, 0),
        SnakeMovement::Left,
        vec![segment(0, -40, SnakeMovement::Up, Look::TailEnd)],
        (-420, -280),
    );
    w.advance();
    let last = w.bodies[0].unwrap();
    assert_eq!(last.position, Vector::new(0, 0));
    assert_eq!(last.direction, SnakeMovement::Left);
    assert_eq!(last.look, Look::TailEnd);
    assert_eq!(last.rotation, Rotation::Deg180);
}

#[test]
fn a_reversal_is_not_prevented_and_counts_as_a_left_turn() {
    let mut w = world(
        (0, 0),
        SnakeMovement::Left,
        vec![
            segment(-40, 0, SnakeMovement::Right, Look::Body),
            segment(-80, 0, SnakeMovement::Right, Look::TailEnd),
        ],
        (-420, -280),
    );
    w.advance();
    assert_eq!(w.snake.as_ref().unwrap().position, Vector::new(-40, 0));
    let first = w.bodies[0].unwrap();
    assert_eq!(first.position, Vector::new(0, 0));
    assert_eq!(first.direction, SnakeMovement::Left);
    assert_eq!(first.look, Look::Corner);
    assert_eq!(first.rotation, Rotation::Deg270);
}

#[test]
fn a_missing_segment_is_passed_over() {
    let mut w = world(
        (0, 0),
        SnakeMovement::Right,
        vec![
            segment(-40, 0, SnakeMovement::Right, Look::Body),
            None,
            segment(-120, 0, SnakeMovement::Right, Look::TailEnd),
        ],
        (-420, -280),
    );
    w.advance();
    assert_eq!(w.bodies[0].unwrap().position, Vector::new(0, 0));
    assert!(w.bodies[1].is_none());
    // The third takes the place that the first had.
    assert_eq!(w.bodies[2].unwrap().position, Vector::new(-40, 0));
    assert_eq!(w.snake.as_ref().unwrap().tail, vec![0, 1, 2]);
}

#[test]
fn an_identifier_outside_the_table_is_passed_over() {
    let mut w = world(
        (0, 0),
        SnakeMovement::Right,
        vec![segment(-40, 0, SnakeMovement::Right, Look::TailEnd)],
        (-420, -280),
    );
    w.snake.as_mut().unwrap().tail = vec![7, 0];
    w.advance();
    assert_eq!(w.bodies.len(), 1);
    assert_eq!(w.bodies[0].unwrap().position, Vector::new(0, 0));
}

#[test]
fn without_a_head_or_an_apple_the_step_does_nothing() {
    let mut w = world(
        (0, 0),
        SnakeMovement::Right,
        vec![segment(-40, 0, SnakeMovement::Right, Look::TailEnd)],
        (-420, -280),
    );
    w.apple = None;
    w.advance();
    assert_eq!(w.snake.as_ref().unwrap().position, Vector::new(0, 0));
    assert_eq!(w.bodies[0].unwrap().position, Vector::new(-40, 0));
    assert!(w.events.is_empty());

    let mut w = world((0, 0), SnakeMovement::Right, vec![], (0, 0));
    w.snake = None;
    w.advance();
    assert!(w.snake.is_none());
    assert!(w.events.is_empty());
}

#[test]
fn food_closer_than_one_cell_is_reached() {
    let mut w = world(
        (0, 0),
        SnakeMovement::Right,
        vec![segment(-40, 0, SnakeMovement::Right, Look::TailEnd)],
        (40, 0),
    );
    w.advance();
    assert_eq!(w.events, vec![GameEvent::FoodReached]);

    // 39 units away along one axis is still near, 40 is not.
    let mut near = world((0, 0), SnakeMovement::Right, vec![], (79, 0));
    near.advance();
    assert_eq!(near.events, vec![GameEvent::FoodReached]);
    let mut far = world((0, 0), SnakeMovement::Right, vec![], (80, 0));
    far.advance();
    assert!(far.events.is_empty());
    // The distance is Euclidean: 30 and 30 make more than 40.
    let mut diagonal = world((0, 0), SnakeMovement::Right, vec![], (70, 30));
    diagonal.advance();
    assert!(diagonal.events.is_empty());
    let mut close = world((0, 0), SnakeMovement::Right, vec![], (60, 30));
    close.advance();
    assert_eq!(close.events, vec![GameEvent::FoodReached]);
}

#[test]
fn leaving_the_arena_is_detected_once_on_each_side() {
    for (head, d) in [
        ((420, 0), SnakeMovement::Right),
        ((-420, 0), SnakeMovement::Left),
        ((0, 200), SnakeMovement::Up),
        ((0, -280), SnakeMovement::Down),
    ] {
        let mut w = world(head, d, vec![], (-420, -280));
        w.advance();
        assert_eq!(w.events, vec![GameEvent::BoundaryExceeded]);
    }
    // On the limit itself the head is still inside.
    let mut w = world((380, 0), SnakeMovement::Right, vec![], (-420, -280));
    w.advance();
    assert_eq!(w.snake.as_ref().unwrap().position, Vector::new(420, 0));
    assert!(w.events.is_empty());
}

#[test]
fn food_is_reported_before_the_boundary() {
    let mut w = world((420, 0), SnakeMovement::Right, vec![], (450, 0));
    w.advance();
    assert_eq!(w.events, vec![GameEvent::FoodReached, GameEvent::BoundaryExceeded]);
}

#[test]
fn the_clock_gates_the_step() {
    let mut w = world(
        (0, 0),
        SnakeMovement::Right,
        vec![segment(-40, 0, SnakeMovement::Right, Look::TailEnd)],
        (-420, -280),
    );
    assert!(!w.snake_movement_timer(150_000_000));
    assert_eq!(w.snake.as_ref().unwrap().position, Vector::new(0, 0));
    assert!(w.snake_movement_timer(150_000_000));
    assert_eq!(w.snake.as_ref().unwrap().position, Vector::new(40, 0));
    assert_eq!(w.timer.elapsed_nanos, 100_000_000);
    // Several intervals at once give one step only.
    assert!(w.snake_movement_timer(1_000_000_000));
    assert_eq!(w.snake.as_ref().unwrap().position, Vector::new(80, 0));
    assert_eq!(w.timer.elapsed_nanos, 100_000_000);
}
