use snake_game::arena::Arena;
use snake_game::clock::MovementTimer;
use snake_game::direction::SnakeMovement;
use snake_game::engine::{displaced, is_near, step};
use snake_game::input::PressedKeys;
use snake_game::snake::{Apple, BodySnake, GameEvent, Look};
use snake_game::soundness::MAX_CHAIN;
use snake_game::vector::Vector;
use snake_game::world::World;

#[test]
fn a_new_game_is_sound_and_ready() {
    let w = World::new_game(Arena::standard(), 4, 4);
    assert!(w.is_sound());
    assert!(w.can_update());
    for _ in 0..20 {
        let w = World::spawn_game(Arena::standard());
        assert!(w.is_sound());
        assert!(w.can_update());
    }
}

#[test]
fn every_frame_leaves_the_world_ready_for_the_next() {
    let none = PressedKeys::released();
    let turns = [
        PressedKeys { key_w: true, ..none },
        none,
        PressedKeys { key_a: true, ..none },
        none,
        none,
        PressedKeys { arrow_down: true, ..none },
        PressedKeys { key_d: true, ..none },
        none,
    ];
    let mut w = World::new_game(Arena::standard(), 10, 8);
    let mut frame = 0;
    while w.snake.is_some() && frame < 400 {
        assert!(w.can_update());
        // Put the apple right in front of the head every third frame.
        if frame % 3 == 0 {
            let head = w.snake.as_ref().unwrap();
            let ahead = displaced(head.position, turns[frame % 8].resolve().unwrap_or(head.direction), 40);
            w.apple = Some(Apple { position: ahead });
        }
        let before = (w.score.value(), w.snake.as_ref().unwrap().tail.len());
        w.update(&turns[frame % 8], 200_000_000);
        assert!(w.is_sound());
        assert!(w.events.is_empty());
        if let Some(s) = &w.snake {
            assert!(w.arena.contains(s.position));
            let grew = w.score.value() - before.0;
            assert!(grew <= 1);
            assert_eq!(s.tail.len(), before.1 + grew);
            // The chain hangs together: each segment is one cell behind
            // what lies before it, against its own direction.
            let mut lead = s.position;
            for id in s.tail.iter() {
                let b = w.bodies[*id].unwrap();
                assert_eq!(displaced(b.position, b.direction, 40), lead);
                lead = b.position;
            }
            assert_eq!(w.bodies[*s.tail.last().unwrap()].unwrap().look, Look::TailEnd);
        }
        frame += 1;
    }
    assert!(w.can_update());
}

#[test]
fn unsound_worlds_are_told_apart() {
    let fresh = || {
        let mut w = World::new_game(Arena::standard(), 0, 0);
        assert!(w.listener_new_body_snake_part());
        assert!(w.is_sound());
        w
    };
    // An identifier twice.
    let mut w = fresh();
    w.snake.as_mut().unwrap().tail = vec![0, 0];
    assert!(!w.is_sound());
    // An identifier outside the table.
    let mut w = fresh();
    w.snake.as_mut().unwrap().tail = vec![0, 2];
    assert!(!w.is_sound());
    // More identifiers than segments.
    let mut w = fresh();
    w.bodies.pop();
    assert!(!w.is_sound());
    // A segment out of reach of the head: the first may be one cell away.
    let mut w = fresh();
    w.bodies[0].as_mut().unwrap().position = Vector::new(-100, 0);
    assert!(!w.is_sound());
    let mut w = fresh();
    w.bodies[0].as_mut().unwrap().position = Vector::new(-40, -20);
    assert!(w.is_sound());
    w.bodies[0].as_mut().unwrap().position = Vector::new(-40, -21);
    assert!(!w.is_sound());
    // The second may be two cells away.
    let mut w = fresh();
    w.bodies[1].as_mut().unwrap().position = Vector::new(-20, 80);
    assert!(w.is_sound());
    w.bodies[1].as_mut().unwrap().position = Vector::new(-20, 81);
    assert!(!w.is_sound());
    // A segment that is gone is not looked at.
    let mut w = fresh();
    w.bodies[1] = None;
    assert!(w.is_sound());
    // The head further than one cell beyond the limits.
    let mut w = fresh();
    w.bodies = vec![None, None];
    w.snake.as_mut().unwrap().position = Vector::new(460, 0);
    assert!(w.is_sound());
    w.snake.as_mut().unwrap().position = Vector::new(461, 0);
    assert!(!w.is_sound());
    // A clock that cannot tick, an arena that is not usable.
    let mut w = fresh();
    w.timer = MovementTimer { interval_nanos: 0, elapsed_nanos: 0 };
    assert!(!w.is_sound());
    let mut w = fresh();
    w.timer = MovementTimer { interval_nanos: 5, elapsed_nanos: 5 };
    assert!(!w.is_sound());
    let mut w = fresh();
    w.arena.snake_size = 0;
    assert!(!w.is_sound());
    // Without a head the chain does not matter.
    let mut w = fresh();
    w.snake = None;
    assert!(w.is_sound());
    assert_eq!(MAX_CHAIN, 1 << 30);
}

#[test]
fn a_frame_needs_an_empty_queue_and_the_head_inside() {
    let mut w = World::new_game(Arena::standard(), 0, 0);
    w.events.push(GameEvent::GrowthRequested);
    assert!(w.is_sound());
    assert!(!w.can_update());
    w.events.clear();
    assert!(w.can_update());
    w.snake.as_mut().unwrap().position = Vector::new(421, 0);
    w.bodies[0] = None;
    assert!(w.is_sound());
    assert!(!w.can_update());
    w.snake.as_mut().unwrap().position = Vector::new(420, 0);
    assert!(w.can_update());
    w.score.0 = usize::MAX;
    assert!(!w.can_update());
}

#[test]
fn displaced_moves_along_and_against_a_direction() {
    let p = Vector::new(3, -7);
    assert_eq!(displaced(p, SnakeMovement::Up, 40), Vector::new(3, 33));
    assert_eq!(displaced(p, SnakeMovement::Down, 40), Vector::new(3, -47));
    assert_eq!(displaced(p, SnakeMovement::Left, 40), Vector::new(-37, -7));
    assert_eq!(displaced(p, SnakeMovement::Right, 40), Vector::new(43, -7));
    assert_eq!(displaced(p, SnakeMovement::Right, -40), Vector::new(-37, -7));
    assert_eq!(displaced(p, SnakeMovement::Up, 0), p);
}

#[test]
fn nearness_is_strictly_less_than_one_cell() {
    let a = Arena::standard();
    let o = Vector::new(0, 0);
    assert!(is_near(&a, o, o));
    assert!(is_near(&a, o, Vector::new(39, 0)));
    assert!(is_near(&a, o, Vector::new(0, -39)));
    assert!(!is_near(&a, o, Vector::new(40, 0)));
    assert!(!is_near(&a, o, Vector::new(0, 40)));
    // 24 and 32 make exactly 40.
    assert!(!is_near(&a, o, Vector::new(24, 32)));
    assert!(is_near(&a, o, Vector::new(24, 31)));
    assert!(is_near(&a, Vector::new(-24, -31), o));
    // Far apart, at the ends of the machine's range.
    assert!(!is_near(&a, Vector::new(i64::MIN, i64::MIN), Vector::new(i64::MAX, i64::MAX)));
    assert!(is_near(&a, Vector::new(i64::MAX, i64::MIN), Vector::new(i64::MAX - 1, i64::MIN + 1)));
}

#[test]
fn the_step_works_on_the_parts_of_a_world() {
    let arena = Arena::standard();
    let mut w = World::new_game(arena, 0, 0);
    let mut snake = w.snake.take().unwrap();
    let apple = Apple { position: Vector::new(20, 0) };
    let mut events = vec![GameEvent::GrowthRequested];
    step(&arena, &mut snake, &mut w.bodies, &apple, &mut events);
    assert_eq!(snake.position, Vector::new(20, 0));
    assert_eq!(
        w.bodies[0],
        Some(BodySnake {
            position: Vector::new(-20, 0),
            direction: SnakeMovement::Right,
            rotation: SnakeMovement::Right.facing(),
            look: Look::TailEnd,
        })
    );
    assert_eq!(events, vec![GameEvent::GrowthRequested, GameEvent::FoodReached]);
}
