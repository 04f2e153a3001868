use snake::bonus::{BonusTimer, LAST_PHASE};
use snake::components::{FoodType, GameType, Position};
use snake::food::{get_couple_x_y, get_new_food_position, get_points};
use snake::game::{Game, RoundOutcome, FOOD_MAX};
use snake::menu::{back_to_main_menu_controls, game_over_state, AppState, MenuButton};
use snake::wall::{EXTERIOR_WALL, VERTICAL_WALL, WITHOUT_WALL};

const SECOND: u64 = 1_000_000;

fn new_game(wall_type: usize, multiplier: u32, width: u32, height: u32) -> Game {
    Game::new(GameType { wall_type, multiplier }, width, height)
}

fn occupied_or_solid(game: &Game, p: Position) -> bool {
    game.head == p
        || game.snake.body_parts.iter().any(|s| s.position == p)
        || game.foods.iter().any(|f| f.position == p)
        || game.walls.iter().any(|w| w.position == p && w.collision.is_some())
}

#[test]
fn simple_food_points_by_time_elapsed() {
    assert_eq!(get_points(8, 1), 4);
    assert_eq!(get_points(8, 5), 2);
    assert_eq!(get_points(8, 7), 1);
    assert_eq!(get_points(8, 0), 4);
    assert_eq!(get_points(8, 8), 1);
}

#[test]
fn point_tiers_include_their_upper_bound() {
    assert_eq!(get_points(4, 1), 4);
    assert_eq!(get_points(100, 26), 3);
    assert_eq!(get_points(2, 1), 3);
    assert_eq!(get_points(100, 51), 2);
    assert_eq!(get_points(4, 3), 2);
    assert_eq!(get_points(100, 76), 1);
    assert_eq!(get_points(0, 0), 4);
    assert_eq!(get_points(0, 3), 1);
}

#[test]
fn couple_of_coordinates() {
    assert_eq!(get_couple_x_y(2, 3), -6);
    assert_eq!(get_couple_x_y(3, 2), 6);
    assert_eq!(get_couple_x_y(0, 5), -5);
    assert_eq!(get_couple_x_y(5, 0), 5);
    assert_eq!(get_couple_x_y(-2, 4), 8);
    assert_eq!(get_couple_x_y(0, i32::MIN), i32::MIN);
}

#[test]
fn simple_food_scores_times_the_multiplier() {
    let mut game = new_game(WITHOUT_WALL, 3, 20, 20);
    let p = game.spawn_food_at(FoodType::Simple, 5).unwrap();
    assert_eq!(p, Position { x: 5, y: 0 });
    assert_eq!(game.food_count, 1);
    game.food_timer_system(SECOND);
    game.head = p;
    assert_eq!(game.snake_ate_food_system(), Some(FoodType::Simple));
    assert_eq!(game.score, 12);
    assert_eq!(game.food_count, 0);
    assert!(game.foods.is_empty());
}

#[test]
fn late_simple_food_is_worth_less() {
    let mut game = new_game(WITHOUT_WALL, 2, 20, 20);
    let p = game.spawn_food_at(FoodType::Simple, 0).unwrap();
    game.food_timer_system(5 * SECOND);
    game.head = p;
    game.update(0);
    assert_eq!(game.score, 4);
    let q = game.spawn_food_at(FoodType::Simple, 0).unwrap();
    game.food_timer_system(7 * SECOND);
    game.head = q;
    game.snake_ate_food_system();
    assert_eq!(game.score, 6);
}

#[test]
fn gold_food_scores_ten_times_the_multiplier() {
    let mut game = new_game(EXTERIOR_WALL, 3, 20, 20);
    let p = game.spawn_food_at(FoodType::Gold, 0).unwrap();
    assert_eq!(game.food_count, 0);
    game.food_timer_system(5 * SECOND);
    game.head = p;
    assert_eq!(game.snake_ate_food_system(), Some(FoodType::Gold));
    assert_eq!(game.score, 30);
    assert!(game.snake.ate);
}

#[test]
fn score_saturates() {
    let mut game = new_game(WITHOUT_WALL, u32::MAX, 20, 20);
    let p = game.spawn_food_at(FoodType::Gold, 0).unwrap();
    game.head = p;
    game.snake_ate_food_system();
    assert_eq!(game.score, u32::MAX);
}

#[test]
fn simple_food_expires_after_eight_seconds() {
    let mut game = new_game(WITHOUT_WALL, 1, 20, 20);
    game.spawn_food_at(FoodType::Simple, 0).unwrap();
    game.spawn_food_at(FoodType::Gold, 0).unwrap();
    assert_eq!(game.foods.len(), 2);
    game.food_timer_system(6 * SECOND);
    assert_eq!(game.foods.len(), 1);
    assert_eq!(game.foods[0].food.0, FoodType::Simple);
    assert_eq!(game.food_count, 1);
    game.food_timer_system(2 * SECOND - 1);
    assert_eq!(game.foods.len(), 1);
    game.food_timer_system(1);
    assert!(game.foods.is_empty());
    assert_eq!(game.food_count, 0);
}

#[test]
fn at_most_three_simple_foods() {
    let mut game = new_game(WITHOUT_WALL, 1, 20, 20);
    for _ in 0..FOOD_MAX {
        assert!(game.food_spawn_system().is_some());
    }
    assert_eq!(game.food_count, FOOD_MAX);
    assert_eq!(game.food_spawn_system(), None);
    assert_eq!(game.foods.len(), 3);
    assert!(game.spawn_food(FoodType::Gold).is_some());
}

#[test]
fn food_is_placed_at_the_chosen_free_tile() {
    let mut game = new_game(WITHOUT_WALL, 1, 4, 4);
    let free = game.get_available_positions_depending_snake_and_food();
    assert_eq!(free.len(), 14);
    assert!(!free.contains(&Position { x: 3, y: 3 }));
    assert!(!free.contains(&Position { x: 2, y: 3 }));
    assert_eq!(game.spawn_food_at(FoodType::Gold, 13), Some(Position { x: 1, y: 3 }));
    assert_eq!(game.spawn_food_at(FoodType::Gold, 13), None);
    assert_eq!(game.get_available_positions_depending_snake_and_food().len(), 13);
}

#[test]
fn random_food_lands_on_free_tiles_only() {
    let mut game = new_game(VERTICAL_WALL, 1, 4, 3);
    let mut placed = Vec::new();
    loop {
        let before = game.get_available_positions_depending_snake_and_food();
        match game.spawn_food(FoodType::Gold) {
            Some(p) => {
                assert!(before.contains(&p));
                assert!(!placed.contains(&p));
                placed.push(p);
            }
            None => break,
        }
    }
    assert!(game.get_available_positions_depending_snake_and_food().is_empty());
    assert_eq!(placed.len(), 12);
    for p in &placed {
        assert!(p.x != 2);
    }
    let mut fresh = new_game(VERTICAL_WALL, 1, 4, 3);
    for _ in 0..20 {
        if let Some(p) = fresh.spawn_food(FoodType::Gold) {
            fresh.foods.pop();
            assert!(!occupied_or_solid(&fresh, p));
        }
    }
}

#[test]
fn bonus_food_needs_walls() {
    let mut game = new_game(WITHOUT_WALL, 1, 20, 20);
    for _ in 0..200 {
        assert_eq!(game.bonus_food_spawn_system(), None);
    }
    let walled = new_game(VERTICAL_WALL, 1, 20, 20);
    assert!(walled.snake_is_not_too_big());
}

#[test]
fn bonus_runs_through_its_phases() {
    let mut game = new_game(VERTICAL_WALL, 1, 20, 20);
    let p = game.spawn_food_at(FoodType::Bonus, 0).unwrap();
    assert!(game.foods[0].bonus_timer.is_some());
    game.head = p;
    assert_eq!(game.snake_ate_food_system(), Some(FoodType::Bonus));
    assert!(game.snake.invincible);
    assert!(game.snake.ate);
    assert_eq!(game.score, 0);
    assert_eq!(game.food_count, 0);
    let phase = |g: &Game| g.bonus_timer.map(|b| b.life_cycle);
    assert_eq!(phase(&game), Some(0));
    game.snake_bonus_timer_system(15 * SECOND - 1);
    assert_eq!(phase(&game), Some(0));
    game.snake_bonus_timer_system(1);
    assert_eq!(phase(&game), Some(1));
    game.snake_bonus_timer_system(5 * SECOND);
    assert_eq!(phase(&game), Some(2));
    game.snake_bonus_timer_system(6 * SECOND);
    assert_eq!(phase(&game), Some(3));
    game.snake_bonus_timer_system(4 * SECOND - 1);
    assert!(game.snake.invincible);
    game.snake_bonus_timer_system(1);
    assert!(!game.snake.invincible);
    assert!(game.bonus_timer.is_none());
    assert!(game.crossing.is_none());
}

#[test]
fn invincible_snake_crosses_walls_and_blinks_at_the_end() {
    let mut game = new_game(VERTICAL_WALL, 1, 20, 20);
    let p = game.spawn_food_at(FoodType::Bonus, 0).unwrap();
    game.head = p;
    game.update(0);
    assert!(game.snake.invincible);
    game.head = Position { x: 10, y: 2 };
    game.update(10_000);
    assert_eq!(game.outcome, None);
    assert!(game.obstacles_faded());
    game.update(15 * SECOND);
    game.update(5 * SECOND);
    game.update(6 * SECOND);
    assert_eq!(game.bonus_timer.unwrap().life_cycle, LAST_PHASE);
    assert!(game.obstacles_faded());
    game.update(100_000);
    game.update(500_000);
    assert!(!game.obstacles_faded());
    game.update(500_000);
    assert!(game.obstacles_faded());
    game.update(3 * SECOND);
    assert!(!game.snake.invincible);
    assert!(!game.obstacles_faded());
    game.update(10_000);
    assert_eq!(game.outcome, Some(RoundOutcome::Loss));
}

#[test]
fn color_cycle_wraps_after_twelve() {
    let mut colors = BonusTimer::default();
    for i in 1..12 {
        colors.tick_colors(50_000);
        assert_eq!(colors.index_color, i);
    }
    colors.tick_colors(50_000);
    assert_eq!(colors.index_color, 0);
    colors.tick_colors(10_000);
    assert_eq!(colors.index_color, 0);
}

#[test]
fn menu_buttons_pick_the_round() {
    assert_eq!(MenuButton::WithoutWall(1).enum_index(), 0);
    assert_eq!(MenuButton::VerticalAndHorizontalWall(5).enum_index(), 4);
    assert_eq!(
        MenuButton::ExteriorWall(3).game_type(),
        Some(GameType { wall_type: 1, multiplier: 3 })
    );
    assert_eq!(
        MenuButton::HorizontalWall(2).game_type(),
        Some(GameType { wall_type: 3, multiplier: 2 })
    );
    assert_eq!(MenuButton::Quit.game_type(), None);
}

#[test]
fn escape_and_space_move_between_screens() {
    assert_eq!(back_to_main_menu_controls(AppState::InGame, true, true), AppState::MainMenu);
    assert_eq!(back_to_main_menu_controls(AppState::InGame, false, true), AppState::Pause);
    assert_eq!(back_to_main_menu_controls(AppState::InGame, false, false), AppState::InGame);
    assert_eq!(back_to_main_menu_controls(AppState::Pause, true, false), AppState::Pause);
    assert_eq!(back_to_main_menu_controls(AppState::Pause, false, true), AppState::InGame);
    assert_eq!(back_to_main_menu_controls(AppState::MainMenu, true, true), AppState::MainMenu);
    assert_eq!(game_over_state(RoundOutcome::Win), AppState::GameOver(true));
    assert_eq!(game_over_state(RoundOutcome::Loss), AppState::GameOver(false));
}

#[test]
fn drawn_position_is_one_of_the_candidates() {
    let only = vec![Position { x: 7, y: 1 }];
    assert_eq!(get_new_food_position(&only), Position { x: 7, y: 1 });
    let several = vec![Position { x: 0, y: 0 }, Position { x: 1, y: 0 }, Position { x: 2, y: 5 }];
    for _ in 0..50 {
        assert!(several.contains(&get_new_food_position(&several)));
    }
}
