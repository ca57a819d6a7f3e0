use std::collections::VecDeque;

use snake_game::game::{GameState, InputSignal, LoopAction, Outcome, next_action, MAX_FOOD,
    SPAWN_COUNT, TICK_INTERVAL_MS};
use snake_game::geometry::{Bounds, Direction, Point};

fn bounds_10() -> Bounds {
    Bounds { width: 10, height: 10 }
}

fn manhattan(p: Point, q: Point) -> usize {
    let dx = if p.x >= q.x { p.x - q.x } else { q.x - p.x };
    let dy = if p.y >= q.y { p.y - q.y } else { q.y - p.y };
    dx + dy
}

fn assert_food_wf(s: &GameState) {
    for f in s.food.iter() {
        assert!(f.x >= 1 && f.x < s.bounds.width - 1, "food off the interior");
        assert!(f.y >= 1 && f.y < s.bounds.height - 1, "food off the interior");
        assert!(!s.snake.body.contains(f), "food under the snake");
    }
    for i in 0..s.food.len() {
        for j in (i + 1)..s.food.len() {
            assert_ne!(s.food[i], s.food[j], "duplicate food cell");
        }
    }
    assert!(s.food.len() <= MAX_FOOD);
}

#[test]
fn new_game_layout() {
    let s = GameState::new(bounds_10());
    assert_eq!(s.snake.body.len(), 1);
    assert_eq!(s.snake.body[0], Point { x: 5, y: 5 });
    assert_eq!(s.snake.direction, Direction::Right);
    assert_eq!(s.food, vec![Point { x: 3, y: 3 }]);
    assert_eq!(s.max_food, MAX_FOOD);
    assert!(!s.should_exit);
    assert_food_wf(&s);
}

#[test]
fn scenario_a_plain_move() {
    let mut s = GameState::new(bounds_10());
    let outcome = s.on_tick();
    assert_eq!(outcome, Outcome::Moved);
    assert_eq!(s.snake.body.len(), 1);
    assert_eq!(s.snake.body[0], Point { x: 6, y: 5 });
    assert!(!s.should_exit);
    assert_eq!(s.food, vec![Point { x: 3, y: 3 }]);
}

#[test]
fn scenario_b_eat_and_replenish() {
    let mut s = GameState::new(bounds_10());
    s.food = vec![Point { x: 6, y: 5 }];
    let outcome = s.on_tick();
    assert_eq!(outcome, Outcome::FoodEaten);
    assert_eq!(s.snake.body.len(), 2);
    assert_eq!(s.snake.body[0], Point { x: 6, y: 5 });
    assert_eq!(s.snake.body[1], Point { x: 5, y: 5 });
    assert!(!s.food.contains(&Point { x: 6, y: 5 }));
    // one cell was eaten, the replenishment fills the full quota: the 8x8
    // interior has plenty of free cells
    assert_eq!(s.food.len(), SPAWN_COUNT);
    assert_food_wf(&s);
    assert!(!s.should_exit);
}

#[test]
fn scenario_c_wall_collision() {
    let mut s = GameState::new(bounds_10());
    s.snake.body = VecDeque::from(vec![Point { x: 1, y: 5 }]);
    s.snake.direction = Direction::Left;
    let outcome = s.on_tick();
    assert_eq!(outcome, Outcome::Collision);
    assert!(s.should_exit);
    assert_eq!(s.snake.body.len(), 1);
    assert_eq!(s.snake.body[0], Point { x: 1, y: 5 });
    assert_eq!(s.food, vec![Point { x: 3, y: 3 }]);
}

#[test]
fn scenario_d_replenish_at_capacity() {
    let mut s = GameState::new(bounds_10());
    s.spawn_food(MAX_FOOD - 1);
    assert_eq!(s.food.len(), MAX_FOOD);
    let before = s.food.clone();
    s.spawn_food(5);
    assert_eq!(s.food, before);
    assert_eq!(s.food.len(), MAX_FOOD);
    assert_food_wf(&s);
}

#[test]
fn scenario_e_quit_signal() {
    let mut s = GameState::new(bounds_10());
    let body_before: Vec<Point> = s.snake.body.iter().copied().collect();
    let food_before = s.food.clone();
    s.on_key(InputSignal::Quit);
    assert!(s.should_exit);
    assert_eq!(s.snake.direction, Direction::Right);
    let body_after: Vec<Point> = s.snake.body.iter().copied().collect();
    assert_eq!(body_after, body_before);
    assert_eq!(s.food, food_before);
    // the loop must exit before it ticks again
    assert_eq!(next_action(s.should_exit, TICK_INTERVAL_MS + 50), LoopAction::Exit);
}

#[test]
fn self_collision_detected() {
    let mut s = GameState::new(bounds_10());
    // heading right into one's own second segment
    s.snake.body = VecDeque::from(vec![Point { x: 5, y: 5 }, Point { x: 6, y: 5 }]);
    s.snake.direction = Direction::Right;
    let outcome = s.on_tick();
    assert_eq!(outcome, Outcome::Collision);
    assert!(s.should_exit);
    assert_eq!(s.snake.body.len(), 2);
}

#[test]
fn boundary_collisions_on_all_sides() {
    let cases = [
        (Point { x: 1, y: 5 }, Direction::Left),
        (Point { x: 8, y: 5 }, Direction::Right),
        (Point { x: 5, y: 1 }, Direction::Up),
        (Point { x: 5, y: 8 }, Direction::Down),
    ];
    for (start, dir) in cases {
        let mut s = GameState::new(bounds_10());
        s.snake.body = VecDeque::from(vec![start]);
        s.snake.direction = dir;
        assert_eq!(s.on_tick(), Outcome::Collision);
        assert!(s.should_exit);
        assert_eq!(s.snake.body[0], start);
    }
}

#[test]
fn length_never_shrinks_over_many_ticks() {
    let mut s = GameState::new(Bounds { width: 30, height: 30 });
    let mut len = s.snake.body.len();
    for _ in 0..200 {
        if s.should_exit {
            break;
        }
        let outcome = s.on_tick();
        assert!(s.snake.body.len() >= len, "body shrank");
        match outcome {
            Outcome::Moved => assert_eq!(s.snake.body.len(), len),
            Outcome::FoodEaten => assert_eq!(s.snake.body.len(), len + 1),
            Outcome::Collision => assert_eq!(s.snake.body.len(), len),
        }
        len = s.snake.body.len();
        assert_food_wf(&s);
    }
}

#[test]
fn head_moves_one_cell_per_tick() {
    let dirs = [Direction::Up, Direction::Down, Direction::Left, Direction::Right];
    for dir in dirs {
        let mut s = GameState::new(bounds_10());
        s.snake.direction = dir;
        let before = s.snake.body[0];
        let outcome = s.on_tick();
        assert_eq!(outcome, Outcome::Moved);
        assert_eq!(manhattan(before, s.snake.body[0]), 1);
    }
}

#[test]
fn direction_keys_steer() {
    let mut s = GameState::new(bounds_10());
    s.on_key(InputSignal::Up);
    assert_eq!(s.snake.direction, Direction::Up);
    s.on_key(InputSignal::Left);
    assert_eq!(s.snake.direction, Direction::Left);
    s.on_key(InputSignal::Down);
    assert_eq!(s.snake.direction, Direction::Down);
    s.on_key(InputSignal::Right);
    assert_eq!(s.snake.direction, Direction::Right);
    s.on_key(InputSignal::Other);
    assert_eq!(s.snake.direction, Direction::Right);
    assert!(!s.should_exit);
}

#[test]
fn loop_decision_table() {
    assert_eq!(next_action(true, 0), LoopAction::Exit);
    assert_eq!(next_action(true, TICK_INTERVAL_MS), LoopAction::Exit);
    assert_eq!(next_action(false, TICK_INTERVAL_MS), LoopAction::Tick);
    assert_eq!(next_action(false, TICK_INTERVAL_MS + 1), LoopAction::Tick);
    assert_eq!(next_action(false, TICK_INTERVAL_MS - 1), LoopAction::Idle);
    assert_eq!(next_action(false, 0), LoopAction::Idle);
}

#[test]
fn replenish_avoids_snake_and_duplicates() {
    let mut s = GameState::new(bounds_10());
    s.snake.body = VecDeque::from(vec![
        Point { x: 5, y: 5 },
        Point { x: 4, y: 5 },
        Point { x: 3, y: 5 },
    ]);
    s.spawn_food(10);
    assert_eq!(s.food.len(), 11);
    assert_food_wf(&s);
}

#[test]
fn replenish_zero_is_a_no_op() {
    let mut s = GameState::new(bounds_10());
    let before = s.food.clone();
    s.spawn_food(0);
    assert_eq!(s.food, before);
}
