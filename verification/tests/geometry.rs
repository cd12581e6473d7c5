use snake_game::arena::{magnitude, Arena};
use snake_game::constants::{SNAKE_NANOS_PER_MOVEMENT, SNAKE_SIZE, SNAKE_SPEED};
use snake_game::clock::MovementTimer;
use snake_game::direction::{is_right_turn, Rotation, SnakeMovement};
use snake_game::input::PressedKeys;
use snake_game::score::Score;
use snake_game::vector::Vector;
use snake_game::wall::{init_walls, Wall, WallLocation};
use snake_game::world::World;

#[test]
fn the_standard_arena_has_the_expected_limits_and_cells() {
    let a = Arena::standard();
    assert!(a.is_valid());
    assert_eq!(a.limits(), (-420, 420, -280, 200));
    assert_eq!(a.cell_counts(), (22, 13));
    assert_eq!(a.cell_size(), 40);
    assert_eq!(SNAKE_SIZE, SNAKE_SPEED);
}

#[test]
fn cell_centres_span_the_arena() {
    let a = Arena::standard();
    assert_eq!(a.cell_center(0, 0), Vector::new(-420, -280));
    assert_eq!(a.cell_center(21, 12), Vector::new(420, 200));
    assert_eq!(a.cell_center(10, 7), Vector::new(-20, 0));
    for cx in 0..22 {
        for cy in 0..13 {
            assert!(a.contains(a.cell_center(cx, cy)));
        }
    }
}

#[test]
fn the_limits_are_inclusive() {
    let a = Arena::standard();
    assert!(a.contains(Vector::new(420, 200)));
    assert!(a.contains(Vector::new(-420, -280)));
    assert!(!a.contains(Vector::new(421, 0)));
    assert!(!a.contains(Vector::new(-421, 0)));
    assert!(!a.contains(Vector::new(0, 201)));
    assert!(!a.contains(Vector::new(0, -281)));
}

#[test]
fn unusable_arenas_are_told_apart() {
    let a = Arena::standard();
    assert!(!Arena { snake_size: 0, ..a }.is_valid());
    assert!(!Arena { snake_size: -40, ..a }.is_valid());
    assert!(!Arena { snake_size: 41, ..a }.is_valid());
    assert!(!Arena { wall_thickness: -1, ..a }.is_valid());
    assert!(!Arena { wall_left: 450, ..a }.is_valid());
    assert!(!Arena { wall_top: -270, ..a }.is_valid());
    // Cells larger than the arena.
    assert!(!Arena { snake_size: 2000, ..a }.is_valid());
    // Walls so thick that the outer cells would lie beyond the limits.
    assert!(!Arena { wall_thickness: 60, ..a }.is_valid());
    // An arena that does not hold the head's start.
    assert!(!Arena { wall_left: 100, wall_right: 1000, ..a }.is_valid());
    assert!(Arena { snake_size: 20, ..a }.is_valid());
}

#[test]
fn magnitude_is_the_distance_from_zero() {
    assert_eq!(magnitude(-450), 450);
    assert_eq!(magnitude(450), 450);
    assert_eq!(magnitude(0), 0);
    assert_eq!(magnitude(i32::MIN), 2_147_483_648);
}

#[test]
fn walls_stand_round_the_arena() {
    let a = Arena::standard();
    assert_eq!(WallLocation::Top.position(&a), Vector::new(0, 230));
    assert_eq!(WallLocation::Bottom.position(&a), Vector::new(0, -310));
    assert_eq!(WallLocation::Left.position(&a), Vector::new(-450, -40));
    assert_eq!(WallLocation::Right.position(&a), Vector::new(450, -40));
    assert_eq!(WallLocation::Top.size(&a), Vector::new(920, 20));
    assert_eq!(WallLocation::Bottom.size(&a), Vector::new(920, 20));
    assert_eq!(WallLocation::Left.size(&a), Vector::new(20, 560));
    assert_eq!(WallLocation::Right.size(&a), Vector::new(20, 560));
    let walls = init_walls(&a);
    assert_eq!(
        walls,
        vec![
            Wall::new(WallLocation::Top, &a),
            Wall::new(WallLocation::Bottom, &a),
            Wall::new(WallLocation::Left, &a),
            Wall::new(WallLocation::Right, &a),
        ]
    );
    assert_eq!(walls[2].position, Vector::new(-450, -40));
    assert_eq!(walls[2].scale, Vector::new(20, 560));
}

#[test]
fn directions_and_unit_vectors_correspond() {
    let all = [
        (SnakeMovement::Up, Vector::new(0, 1)),
        (SnakeMovement::Down, Vector::new(0, -1)),
        (SnakeMovement::Left, Vector::new(-1, 0)),
        (SnakeMovement::Right, Vector::new(1, 0)),
    ];
    for (d, v) in all {
        assert_eq!(d.to_direction(), v);
        assert!(v.is_cardinal());
        assert_eq!(SnakeMovement::from_direction(v), d);
    }
    assert!(!Vector::new(0, 0).is_cardinal());
    assert!(!Vector::new(1, 1).is_cardinal());
    assert!(!Vector::new(2, 0).is_cardinal());
    assert!(!Vector::new(0, -2).is_cardinal());
}

#[test]
fn rotations_count_quarter_turns() {
    assert_eq!(SnakeMovement::Right.facing(), Rotation::Deg0);
    assert_eq!(SnakeMovement::Up.facing(), Rotation::Deg90);
    assert_eq!(SnakeMovement::Left.facing(), Rotation::Deg180);
    assert_eq!(SnakeMovement::Down.facing(), Rotation::Deg270);
    assert_eq!(SnakeMovement::Up.left_corner(), Rotation::Deg180);
    assert_eq!(SnakeMovement::Down.left_corner(), Rotation::Deg0);
    assert_eq!(SnakeMovement::Left.left_corner(), Rotation::Deg270);
    assert_eq!(SnakeMovement::Right.left_corner(), Rotation::Deg90);
    assert_eq!(Rotation::Deg270.quarter_turns(), 3);
    assert_eq!(Rotation::Deg270.degrees(), 270);
    assert_eq!(Rotation::Deg0.degrees(), 0);
    assert_eq!(Rotation::Deg90.quarter_turns(), 1);
    assert_eq!(Rotation::Deg180.degrees(), 180);
}

#[test]
fn right_turns_are_the_clockwise_ones() {
    let (up, down, left, right) =
        (SnakeMovement::Up, SnakeMovement::Down, SnakeMovement::Left, SnakeMovement::Right);
    // (new, old)
    for (new, old) in [(right, up), (down, right), (left, down), (up, left)] {
        assert!(is_right_turn(new, old));
        assert!(!is_right_turn(old, new));
    }
    for d in [up, down, left, right] {
        assert!(!is_right_turn(d, d));
    }
    assert!(!is_right_turn(up, down));
    assert!(!is_right_turn(left, right));
}

#[test]
fn the_last_key_tested_wins() {
    let none = PressedKeys::released();
    assert_eq!(none.resolve(), None);
    assert_eq!(PressedKeys { key_w: true, ..none }.resolve(), Some(SnakeMovement::Up));
    assert_eq!(PressedKeys { arrow_up: true, ..none }.resolve(), Some(SnakeMovement::Up));
    assert_eq!(PressedKeys { key_s: true, ..none }.resolve(), Some(SnakeMovement::Down));
    assert_eq!(PressedKeys { arrow_down: true, ..none }.resolve(), Some(SnakeMovement::Down));
    assert_eq!(PressedKeys { key_a: true, ..none }.resolve(), Some(SnakeMovement::Left));
    assert_eq!(PressedKeys { arrow_left: true, ..none }.resolve(), Some(SnakeMovement::Left));
    assert_eq!(PressedKeys { key_d: true, ..none }.resolve(), Some(SnakeMovement::Right));
    assert_eq!(PressedKeys { arrow_right: true, ..none }.resolve(), Some(SnakeMovement::Right));
    assert_eq!(
        PressedKeys { key_w: true, key_s: true, ..none }.resolve(),
        Some(SnakeMovement::Down)
    );
    assert_eq!(
        PressedKeys { key_w: true, arrow_left: true, key_s: true, ..none }.resolve(),
        Some(SnakeMovement::Left)
    );
    let all = PressedKeys {
        key_w: true,
        arrow_up: true,
        key_s: true,
        arrow_down: true,
        key_a: true,
        arrow_left: true,
        key_d: true,
        arrow_right: true,
    };
    assert_eq!(all.resolve(), Some(SnakeMovement::Right));
}

#[test]
fn keys_set_the_direction_and_no_key_keeps_it() {
    let mut w = World::new_game(Arena::standard(), 0, 0);
    let none = PressedKeys::released();
    w.snake_movement(&none);
    assert_eq!(w.snake.as_ref().unwrap().direction, SnakeMovement::Right);
    w.snake_movement(&PressedKeys { key_w: true, ..none });
    assert_eq!(w.snake.as_ref().unwrap().direction, SnakeMovement::Up);
    w.snake_movement(&none);
    w.snake_movement(&none);
    assert_eq!(w.snake.as_ref().unwrap().direction, SnakeMovement::Up);
    // A reversal is taken as it comes.
    w.snake_movement(&PressedKeys { arrow_down: true, ..none });
    assert_eq!(w.snake.as_ref().unwrap().direction, SnakeMovement::Down);
    // Nothing has moved.
    assert_eq!(w.snake.as_ref().unwrap().position, Vector::new(-20, 0));
    assert_eq!(w.bodies[0].unwrap().position, Vector::new(-60, 0));
}

#[test]
fn the_direction_is_cardinal_after_any_keys() {
    let mut w = World::new_game(Arena::standard(), 0, 0);
    for bits in 0u32..256 {
        let keys = PressedKeys {
            key_w: bits & 1 != 0,
            arrow_up: bits & 2 != 0,
            key_s: bits & 4 != 0,
            arrow_down: bits & 8 != 0,
            key_a: bits & 16 != 0,
            arrow_left: bits & 32 != 0,
            key_d: bits & 64 != 0,
            arrow_right: bits & 128 != 0,
        };
        w.snake_movement(&keys);
        assert!(w.snake.as_ref().unwrap().direction.to_direction().is_cardinal());
    }
}

#[test]
fn the_timer_fires_once_and_keeps_the_remainder() {
    let mut t = MovementTimer::standard();
    assert_eq!(t.interval_nanos, SNAKE_NANOS_PER_MOVEMENT);
    assert!(!t.tick(199_999_999));
    assert_eq!(t.elapsed_nanos, 199_999_999);
    assert!(t.tick(1));
    assert_eq!(t.elapsed_nanos, 0);
    assert!(t.tick(650_000_000));
    assert_eq!(t.elapsed_nanos, 50_000_000);
    assert!(!t.tick(0));
    assert_eq!(t.elapsed_nanos, 50_000_000);
    let mut slow = MovementTimer::from_nanos(1_000_000_000);
    assert!(!slow.tick(999_999_999));
    assert!(slow.tick(u64::MAX));
    assert_eq!(slow.elapsed_nanos, (999_999_999u128 + u64::MAX as u128).rem_euclid(1_000_000_000) as u64);
}

#[test]
fn the_score_counts_up_from_zero() {
    let mut s = Score::new();
    assert_eq!(s.value(), 0);
    s.increment();
    s.increment();
    assert_eq!(s.value(), 2);
    assert_eq!(s, Score(2));
}
