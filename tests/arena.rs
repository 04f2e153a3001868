use snake::components::{GameType, Position};
use snake::game::Game;
use snake::timer::{Timer, TimerMode};
use snake::wall::{
    arena_tile_size, get_all_arena_positions, get_middle, is_game_with_wall, EXTERIOR_WALL,
    HORIZONTAL_WALL, VERTICAL_AND_HORIZONTAL_WALL, VERTICAL_WALL, WITHOUT_WALL,
};

fn game_type(wall_type: usize) -> GameType {
    GameType { wall_type, multiplier: 1 }
}

#[test]
fn once_timer_stops_at_its_duration() {
    let mut t = Timer::new(1_000, TimerMode::Once);
    t.tick(400);
    assert_eq!(t.elapsed, 400);
    assert!(!t.finished());
    t.tick(700);
    assert_eq!(t.elapsed, 1_000);
    assert!(t.finished());
    t.tick(5);
    assert_eq!(t.elapsed, 1_000);
    assert!(t.finished());
}

#[test]
fn repeating_timer_starts_over() {
    let mut t = Timer::new(500, TimerMode::Repeating);
    t.tick(300);
    assert!(!t.finished());
    t.tick(300);
    assert!(t.finished());
    assert_eq!(t.elapsed, 100);
    t.tick(100);
    assert!(!t.finished());
    assert_eq!(t.elapsed, 200);
    t.tick(1_350);
    assert!(t.finished());
    assert_eq!(t.elapsed, 50);
}

#[test]
fn middle_of_even_and_odd_sizes() {
    assert_eq!(get_middle(20), 10);
    assert_eq!(get_middle(21), 10);
    assert_eq!(get_middle(5), 2);
    assert_eq!(get_middle(0), 0);
}

#[test]
fn interior_walls_widen_the_grid() {
    assert_eq!(arena_tile_size(game_type(WITHOUT_WALL), 20, 20), (20, 20));
    assert_eq!(arena_tile_size(game_type(EXTERIOR_WALL), 20, 20), (20, 20));
    assert_eq!(arena_tile_size(game_type(VERTICAL_WALL), 20, 20), (21, 20));
    assert_eq!(arena_tile_size(game_type(HORIZONTAL_WALL), 20, 20), (20, 21));
    assert_eq!(arena_tile_size(game_type(VERTICAL_AND_HORIZONTAL_WALL), 20, 20), (21, 21));
}

#[test]
fn wall_type_zero_has_no_obstacles() {
    assert!(!is_game_with_wall(game_type(WITHOUT_WALL)));
    assert!(is_game_with_wall(game_type(EXTERIOR_WALL)));
    assert!(is_game_with_wall(game_type(VERTICAL_AND_HORIZONTAL_WALL)));
}

#[test]
fn all_arena_positions_cover_the_grid() {
    let all = get_all_arena_positions(2, 3);
    assert_eq!(all.len(), 6);
    for y in 0..2 {
        for x in 0..3 {
            assert!(all.contains(&Position { x, y }));
        }
    }
}

#[test]
fn exterior_wall_ring_is_solid_only_in_exterior_mode() {
    let walled = Game::new(game_type(EXTERIOR_WALL), 20, 20);
    assert_eq!(walled.walls.len(), 2 * 20 + 2 * 20 + 4);
    assert!(walled.walls.iter().all(|w| w.collision.is_some()));
    assert_eq!(walled.positions_available.len(), 400);

    let open = Game::new(game_type(WITHOUT_WALL), 20, 20);
    assert_eq!(open.walls.len(), 84);
    assert!(open.walls.iter().all(|w| w.collision.is_none()));
    assert!(open.walls.iter().any(|w| w.position == Position { x: -1, y: -1 }));
    assert!(open.walls.iter().any(|w| w.position == Position { x: 20, y: 20 }));
}

#[test]
fn vertical_wall_takes_the_middle_column() {
    let game = Game::new(game_type(VERTICAL_WALL), 20, 20);
    assert_eq!(game.tile_width, 21);
    let interior: Vec<_> = game.walls.iter().filter(|w| w.collision.is_some()).collect();
    assert_eq!(interior.len(), 20);
    assert!(interior.iter().all(|w| w.position.x == 10));
    assert_eq!(game.positions_available.len(), 400);
    assert!(!game.positions_available.contains(&Position { x: 10, y: 4 }));
    assert!(game.positions_available.contains(&Position { x: 9, y: 4 }));
}

#[test]
fn crossed_walls_leave_four_quarters() {
    let game = Game::new(game_type(VERTICAL_AND_HORIZONTAL_WALL), 20, 20);
    assert_eq!((game.tile_width, game.tile_height), (21, 21));
    assert_eq!(game.positions_available.len(), 400);
    assert!(!game.positions_available.contains(&Position { x: 3, y: 10 }));
    assert!(!game.positions_available.contains(&Position { x: 10, y: 3 }));
    assert_eq!(game.max_snake_size(), 400);
}

#[test]
fn horizontal_wall_takes_the_middle_row() {
    let game = Game::new(game_type(HORIZONTAL_WALL), 20, 20);
    assert_eq!(game.max_snake_size(), 400);
    assert!(game.walls.iter().filter(|w| w.collision.is_some()).all(|w| w.position.y == 10));
}
