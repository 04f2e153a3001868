use snake::components::{Direction, FoodType, GameType, Position, SnakeBody};
use snake::game::{Game, RoundOutcome};
use snake::snake::{edit_snake_direction, update_snake_head_position};
use snake::wall::{EXTERIOR_WALL, VERTICAL_WALL, WITHOUT_WALL};

fn new_game(wall_type: usize, width: u32, height: u32) -> Game {
    Game::new(GameType { wall_type, multiplier: 1 }, width, height)
}

fn segment(x: i32, y: i32, is_tail: bool) -> SnakeBody {
    SnakeBody { is_tail, id: uuid::Uuid::nil(), position: Position { x, y } }
}

fn body_positions(game: &Game) -> Vec<Position> {
    game.snake.body_parts.iter().map(|s| s.position).collect()
}

#[test]
fn round_starts_with_head_and_one_segment() {
    let game = new_game(WITHOUT_WALL, 20, 20);
    assert_eq!(game.head, Position { x: 3, y: 3 });
    assert_eq!(game.direction, Direction::Right);
    assert_eq!(body_positions(&game), vec![Position { x: 2, y: 3 }]);
    assert!(game.snake.body_parts[0].is_tail);
    assert!(game.snake.moved);
    assert!(!game.snake.invincible);
    assert_eq!(game.outcome, None);
}

#[test]
fn head_wraps_in_a_borderless_arena() {
    let right = update_snake_head_position(Direction::Right, Position { x: 19, y: 5 }, 20, 20, true);
    assert_eq!(right, Position { x: 0, y: 5 });
    let left = update_snake_head_position(Direction::Left, Position { x: 0, y: 5 }, 20, 20, true);
    assert_eq!(left, Position { x: 19, y: 5 });
    let up = update_snake_head_position(Direction::Up, Position { x: 4, y: 19 }, 20, 20, true);
    assert_eq!(up, Position { x: 4, y: 0 });
    let down = update_snake_head_position(Direction::Down, Position { x: 4, y: 0 }, 20, 20, true);
    assert_eq!(down, Position { x: 4, y: 19 });
}

#[test]
fn head_runs_onto_the_border_when_walled() {
    let right = update_snake_head_position(Direction::Right, Position { x: 19, y: 5 }, 20, 20, false);
    assert_eq!(right, Position { x: 20, y: 5 });
    let down = update_snake_head_position(Direction::Down, Position { x: 4, y: 0 }, 20, 20, false);
    assert_eq!(down, Position { x: 4, y: -1 });
}

#[test]
fn moving_right_off_the_edge_wraps_to_zero() {
    let mut game = new_game(WITHOUT_WALL, 20, 20);
    game.head = Position { x: 19, y: 3 };
    game.snake.body_parts[0].position = Position { x: 18, y: 3 };
    game.snake_movement_system();
    assert_eq!(game.head, Position { x: 0, y: 3 });
}

#[test]
fn moving_into_the_exterior_wall_loses() {
    let mut game = new_game(EXTERIOR_WALL, 20, 20);
    game.head = Position { x: 19, y: 3 };
    game.snake.body_parts[0].position = Position { x: 18, y: 3 };
    game.snake_movement_system();
    assert_eq!(game.head, Position { x: 20, y: 3 });
    game.update(16_000);
    assert_eq!(game.outcome, Some(RoundOutcome::Loss));
}

#[test]
fn segment_count_is_kept_without_food() {
    let mut game = new_game(WITHOUT_WALL, 20, 20);
    game.snake_movement_system();
    assert_eq!(game.head, Position { x: 4, y: 3 });
    assert_eq!(body_positions(&game), vec![Position { x: 3, y: 3 }]);
    assert!(game.snake.body_parts[0].is_tail);
    game.snake_movement_system();
    assert_eq!(body_positions(&game), vec![Position { x: 4, y: 3 }]);
}

#[test]
fn segment_count_grows_by_one_after_eating() {
    let mut game = new_game(WITHOUT_WALL, 20, 20);
    assert_eq!(game.spawn_food_at(FoodType::Simple, 0), Some(Position { x: 0, y: 0 }));
    game.head = Position { x: 0, y: 0 };
    game.direction = Direction::Up;
    assert_eq!(game.snake_ate_food_system(), Some(FoodType::Simple));
    assert!(game.snake.ate);
    game.snake_movement_system();
    assert_eq!(game.snake.body_parts.len(), 2);
    assert_eq!(body_positions(&game), vec![Position { x: 2, y: 3 }, Position { x: 0, y: 0 }]);
    assert!(game.snake.body_parts[0].is_tail);
    assert!(!game.snake.body_parts[1].is_tail);
    assert_ne!(game.snake.body_parts[0].id, game.snake.body_parts[1].id);
    assert!(!game.snake.ate);
    game.snake_movement_system();
    assert_eq!(game.snake.body_parts.len(), 2);
    assert_eq!(body_positions(&game), vec![Position { x: 0, y: 0 }, Position { x: 0, y: 1 }]);
    assert!(game.snake.body_parts[0].is_tail);
}

#[test]
fn reversal_is_ignored_and_a_quarter_turn_taken() {
    let mut game = new_game(WITHOUT_WALL, 20, 20);
    assert!(!game.change_direction(Direction::Left));
    assert_eq!(game.direction, Direction::Right);
    assert!(game.snake.moved);
    assert!(game.change_direction(Direction::Up));
    assert_eq!(game.direction, Direction::Up);
    assert!(!game.change_direction(Direction::Left));
    assert_eq!(game.direction, Direction::Up);
    game.snake_movement_system();
    assert!(game.change_direction(Direction::Left));
    assert_eq!(game.direction, Direction::Left);
}

#[test]
fn down_is_taken_when_heading_right() {
    let mut game = new_game(WITHOUT_WALL, 20, 20);
    assert!(game.change_direction(Direction::Down));
    assert_eq!(game.direction, Direction::Down);
    assert_eq!(edit_snake_direction(Direction::Right, Direction::Right), Direction::Right);
    assert_eq!(edit_snake_direction(Direction::Up, Direction::Down), Direction::Up);
}

#[test]
fn running_into_the_body_loses() {
    let mut game = new_game(WITHOUT_WALL, 20, 20);
    game.snake.body_parts[0].is_tail = true;
    game.snake.body_parts.push_back(segment(3, 3, false));
    assert!(game.collide_with_body());
    game.check_correct_snake_head_position_system();
    assert_eq!(game.outcome, Some(RoundOutcome::Loss));
}

#[test]
fn running_into_an_interior_wall_loses() {
    let mut game = new_game(VERTICAL_WALL, 20, 20);
    game.head = Position { x: 10, y: 7 };
    assert!(game.collide_with_wall());
    game.update(10_000);
    assert_eq!(game.outcome, Some(RoundOutcome::Loss));
}

#[test]
fn decorative_border_does_not_stop_the_snake() {
    let mut game = new_game(WITHOUT_WALL, 20, 20);
    game.head = Position { x: 20, y: 3 };
    assert!(!game.collide_with_wall());
    game.update(10_000);
    assert_eq!(game.outcome, None);
}

#[test]
fn nothing_moves_once_the_round_is_over() {
    let mut game = new_game(WITHOUT_WALL, 20, 20);
    game.outcome = Some(RoundOutcome::Loss);
    game.snake_movement_system();
    assert_eq!(game.head, Position { x: 3, y: 3 });
    assert_eq!(game.spawn_food_at(FoodType::Simple, 0), None);
}

#[test]
fn five_by_five_is_won_at_twenty_four_segments() {
    let mut game = new_game(WITHOUT_WALL, 5, 5);
    game.head = Position { x: 4, y: 4 };
    game.snake.body_parts.clear();
    let mut count = 0;
    for y in 0..5 {
        for x in 0..5 {
            if (x, y) != (4, 4) && count < 23 {
                game.snake.body_parts.push_back(segment(x, y, count == 0));
                count += 1;
            }
        }
    }
    assert_eq!(game.snake.body_parts.len(), 23);
    game.check_end_of_game_system();
    assert_eq!(game.outcome, None);
    game.snake.body_parts.push_back(segment(3, 4, false));
    assert_eq!(game.snake.body_parts.len(), 24);
    game.check_end_of_game_system();
    assert_eq!(game.outcome, Some(RoundOutcome::Win));
}

#[test]
fn bonus_food_also_grows_the_snake() {
    let mut game = new_game(VERTICAL_WALL, 20, 20);
    let p = game.spawn_food_at(FoodType::Bonus, 0).unwrap();
    game.head = p;
    game.direction = Direction::Up;
    assert_eq!(game.snake_ate_food_system(), Some(FoodType::Bonus));
    assert!(game.snake.ate);
    game.snake_movement_system();
    assert_eq!(game.snake.body_parts.len(), 2);
    game.snake_movement_system();
    assert_eq!(game.snake.body_parts.len(), 2);
}

#[test]
fn exterior_pair_walls_come_in_row_order() {
    let game = new_game(EXTERIOR_WALL, 3, 2);
    let positions: Vec<Position> = game.walls.iter().map(|w| w.position).collect();
    assert_eq!(
        positions,
        vec![
            Position { x: -1, y: 0 },
            Position { x: 3, y: 0 },
            Position { x: -1, y: 1 },
            Position { x: 3, y: 1 },
            Position { x: 0, y: 2 },
            Position { x: 0, y: -1 },
            Position { x: 1, y: 2 },
            Position { x: 1, y: -1 },
            Position { x: 2, y: 2 },
            Position { x: 2, y: -1 },
            Position { x: -1, y: -1 },
            Position { x: -1, y: 2 },
            Position { x: 3, y: -1 },
            Position { x: 3, y: 2 },
        ]
    );
}
