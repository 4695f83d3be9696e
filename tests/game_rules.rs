use rusty_snake::game::{ConfigError, EndReason, Game, TickResult, SPAWN_ATTEMPTS};
use rusty_snake::geometry::{Direction, Point};
use rusty_snake::input::{interpret, slow_down, speed_up, Intent, Key};
use rusty_snake::layout::{board_preset, difficulty_preset, is_wall, sprites, Glyph, Sprite};

fn pt(x: i32, y: i32) -> Point {
    Point { x, y }
}

fn game_with(w: i32, h: i32, body: Vec<Point>, dir: Direction, food: Point) -> Game {
    Game::with_snake(w, h, 200, body, dir, food).expect("valid game")
}

#[test]
fn direction_vectors_are_unit_steps() {
    assert_eq!(Direction::Up.vector(), (0, -1));
    assert_eq!(Direction::Down.vector(), (0, 1));
    assert_eq!(Direction::Left.vector(), (-1, 0));
    assert_eq!(Direction::Right.vector(), (1, 0));
    assert_eq!(Direction::Up.opposite(), Direction::Down);
    assert_eq!(Direction::Left.opposite(), Direction::Right);
}

#[test]
fn reverse_key_is_dropped_while_heading_right() {
    assert_eq!(interpret(Key::Up, Direction::Right), Intent::ChangeDirection(Direction::Up));
    assert_eq!(interpret(Key::Down, Direction::Right), Intent::ChangeDirection(Direction::Down));
    assert_eq!(interpret(Key::Right, Direction::Right), Intent::ChangeDirection(Direction::Right));
    assert_eq!(interpret(Key::Left, Direction::Right), Intent::Ignore);
    assert_eq!(interpret(Key::Down, Direction::Up), Intent::Ignore);
}

#[test]
fn command_keys_map_to_intents() {
    assert_eq!(interpret(Key::Char('q'), Direction::Up), Intent::Quit);
    assert_eq!(interpret(Key::Char(' '), Direction::Up), Intent::TogglePause);
    assert_eq!(interpret(Key::Char('+'), Direction::Up), Intent::SpeedUp);
    assert_eq!(interpret(Key::Char('-'), Direction::Up), Intent::SlowDown);
    assert_eq!(interpret(Key::Char('x'), Direction::Up), Intent::Ignore);
    assert_eq!(interpret(Key::Enter, Direction::Up), Intent::Ignore);
    assert_eq!(interpret(Key::Other, Direction::Up), Intent::Ignore);
}

#[test]
fn speed_steps_are_clamped() {
    assert_eq!(slow_down(300), 400);
    assert_eq!(slow_down(400), 500);
    assert_eq!(slow_down(450), 500);
    assert_eq!(slow_down(500), 500);
    assert_eq!(speed_up(300), 200);
    assert_eq!(speed_up(150), 50);
    assert_eq!(speed_up(100), 50);
    assert_eq!(speed_up(50), 50);
}

#[test]
fn three_slow_downs_from_300() {
    let mut g = Game::new(20, 10, 300).unwrap();
    for _ in 0..3 {
        assert_eq!(g.handle_key(Key::Char('-')), Intent::SlowDown);
    }
    assert_eq!(g.tick_ms(), 500);
    g.handle_key(Key::Char('-'));
    assert_eq!(g.tick_ms(), 500);
    for _ in 0..20 {
        g.handle_key(Key::Char('+'));
    }
    assert_eq!(g.tick_ms(), 50);
}

#[test]
fn new_game_starts_in_the_middle() {
    let g = Game::new(20, 10, 200).unwrap();
    assert_eq!(g.snake_cells(), vec![pt(10, 5)]);
    assert_eq!(g.food(), pt(15, 8));
    assert_eq!(g.score(), 0);
    assert_eq!(g.direction(), Direction::Right);
    assert_eq!(g.pending_direction(), Direction::Right);
    assert!(!g.is_paused());
    assert_eq!(g.outcome(), None);
    assert_eq!((g.width(), g.height()), (20, 10));
    let big = Game::new(60, 30, 100).unwrap();
    assert_eq!(big.head(), pt(30, 15));
    assert_eq!(big.food(), pt(15, 15));
}

#[test]
fn new_game_moves_food_off_the_start_cell() {
    let g = Game::new(30, 30, 200).unwrap();
    assert_eq!(g.head(), pt(15, 15));
    assert_eq!(g.food(), pt(1, 1));
    let tiny = Game::new(4, 3, 200).unwrap();
    assert_eq!(tiny.head(), pt(2, 1));
    assert_eq!(tiny.food(), pt(1, 1));
}

#[test]
fn new_game_rejects_bad_settings() {
    assert_eq!(Game::new(2, 10, 200).err(), Some(ConfigError::BadSize));
    assert_eq!(Game::new(3, 3, 200).err(), Some(ConfigError::BadSize));
    assert_eq!(Game::new(2000, 10, 200).err(), Some(ConfigError::BadSize));
    assert_eq!(Game::new(20, 10, 10).err(), Some(ConfigError::BadSpeed));
    assert_eq!(Game::new(20, 10, 600).err(), Some(ConfigError::BadSpeed));
}

#[test]
fn with_snake_rejects_bad_snakes_and_food() {
    let bad = |body: Vec<Point>, food: Point| Game::with_snake(20, 10, 200, body, Direction::Right, food).err();
    assert_eq!(bad(vec![], pt(2, 2)), Some(ConfigError::BadSnake));
    assert_eq!(bad(vec![pt(4, 4), pt(5, 4), pt(4, 4)], pt(2, 2)), Some(ConfigError::BadSnake));
    assert_eq!(bad(vec![pt(4, 4), pt(6, 4)], pt(2, 2)), Some(ConfigError::BadSnake));
    assert_eq!(bad(vec![pt(4, 4), pt(5, 5)], pt(2, 2)), Some(ConfigError::BadSnake));
    assert_eq!(bad(vec![pt(0, 4), pt(1, 4)], pt(2, 2)), Some(ConfigError::BadSnake));
    assert_eq!(bad(vec![pt(4, 4), pt(5, 4)], pt(5, 4)), Some(ConfigError::BadFood));
    assert_eq!(bad(vec![pt(4, 4), pt(5, 4)], pt(19, 4)), Some(ConfigError::BadFood));
    assert_eq!(
        Game::with_snake(20, 10, 20, vec![pt(4, 4)], Direction::Right, pt(2, 2)).err(),
        Some(ConfigError::BadSpeed)
    );
    assert!(bad(vec![pt(4, 4), pt(5, 4)], pt(2, 2)).is_none());
}

#[test]
fn wall_ahead_ends_the_game() {
    let mut g = game_with(20, 10, vec![pt(17, 5), pt(18, 5)], Direction::Right, pt(2, 2));
    assert_eq!(g.tick(), TickResult::GameOver(EndReason::HitWall));
    assert_eq!(g.outcome(), Some(EndReason::HitWall));
    assert_eq!(g.snake_cells(), vec![pt(17, 5), pt(18, 5)]);
    assert_eq!(g.tick(), TickResult::GameOver(EndReason::HitWall));
    assert!(!g.tick_due(10_000));
}

#[test]
fn turning_into_the_body_ends_the_game() {
    let body = vec![pt(3, 3), pt(4, 3), pt(5, 3), pt(5, 4), pt(4, 4)];
    let mut g = game_with(20, 10, body.clone(), Direction::Left, pt(9, 8));
    assert_eq!(g.handle_key(Key::Up), Intent::ChangeDirection(Direction::Up));
    assert_eq!(g.tick(), TickResult::GameOver(EndReason::HitSelf));
    assert_eq!(g.outcome(), Some(EndReason::HitSelf));
    assert_eq!(g.snake_cells(), body);
}

#[test]
fn moving_onto_the_tail_cell_is_a_collision() {
    let body = vec![pt(3, 3), pt(4, 3), pt(4, 4), pt(3, 4)];
    let mut g = game_with(20, 10, body, Direction::Left, pt(9, 8));
    g.handle_key(Key::Up);
    assert_eq!(g.tick(), TickResult::GameOver(EndReason::HitSelf));
}

#[test]
fn eating_grows_and_scores() {
    let mut g = game_with(20, 10, vec![pt(4, 5), pt(5, 5)], Direction::Right, pt(6, 5));
    assert_eq!(g.tick(), TickResult::AteFood);
    assert_eq!(g.snake_cells(), vec![pt(4, 5), pt(5, 5), pt(6, 5)]);
    assert_eq!(g.score(), 1);
    let f = g.food();
    assert!(f.x >= 1 && f.x <= 18 && f.y >= 1 && f.y <= 8);
    assert!(!g.snake_cells().contains(&f));
}

#[test]
fn plain_move_drops_the_tail() {
    let mut g = game_with(20, 10, vec![pt(4, 5), pt(5, 5)], Direction::Right, pt(2, 2));
    assert_eq!(g.tick(), TickResult::Continue { vacated: pt(4, 5) });
    assert_eq!(g.snake_cells(), vec![pt(5, 5), pt(6, 5)]);
    assert_eq!(g.snake_len(), 2);
    assert_eq!(g.score(), 0);
    assert_eq!(g.food(), pt(2, 2));
}

#[test]
fn turn_waits_for_the_next_tick() {
    let mut g = game_with(20, 10, vec![pt(4, 5), pt(5, 5)], Direction::Right, pt(2, 2));
    g.handle_key(Key::Down);
    assert_eq!(g.direction(), Direction::Right);
    assert_eq!(g.pending_direction(), Direction::Down);
    assert_eq!(g.handle_key(Key::Left), Intent::Ignore);
    assert_eq!(g.pending_direction(), Direction::Down);
    g.tick();
    assert_eq!(g.direction(), Direction::Down);
    assert_eq!(g.head(), pt(5, 6));
}

/// A 6x5 board: interior columns 1..=4, rows 1..=3, walked row by row in a
/// serpentine.
fn serpentine() -> Vec<Point> {
    vec![
        pt(1, 1), pt(2, 1), pt(3, 1), pt(4, 1),
        pt(4, 2), pt(3, 2), pt(2, 2), pt(1, 2),
        pt(1, 3), pt(2, 3), pt(3, 3), pt(4, 3),
    ]
}

#[test]
fn food_goes_to_the_last_free_cell() {
    let cells = serpentine();
    let mut g = game_with(6, 5, cells[..10].to_vec(), Direction::Right, pt(3, 3));
    assert_eq!(g.tick(), TickResult::AteFood);
    assert_eq!(g.food(), pt(4, 3));
    assert_eq!(g.score(), 1);
}

#[test]
fn food_goes_to_the_last_free_cell_whatever_the_draws() {
    let cells = serpentine();
    let g = game_with(6, 5, cells[..10].to_vec(), Direction::Right, pt(3, 3));
    let draws = vec![pt(1, 1), pt(2, 2), pt(0, 0), pt(3, 3)];
    assert_eq!(g.place_food(&draws), Some(pt(3, 3)));
    let mut g2 = game_with(6, 5, cells[..10].to_vec(), Direction::Right, pt(3, 3));
    assert_eq!(g2.advance(&vec![pt(1, 1), pt(3, 3), pt(2, 2)]), TickResult::AteFood);
    assert_eq!(g2.food(), pt(4, 3));
}

#[test]
fn filling_the_board_ends_the_game() {
    let cells = serpentine();
    let mut g = game_with(6, 5, cells[..11].to_vec(), Direction::Right, pt(4, 3));
    assert_eq!(g.tick(), TickResult::GameOver(EndReason::BoardFull));
    assert_eq!(g.outcome(), Some(EndReason::BoardFull));
    assert_eq!(g.snake_len(), 12);
    assert_eq!(g.score(), 1);
}

#[test]
fn place_food_takes_the_first_free_draw() {
    let g = game_with(20, 10, vec![pt(5, 5)], Direction::Right, pt(2, 2));
    assert_eq!(g.place_food(&vec![pt(5, 5), pt(0, 0), pt(7, 2), pt(8, 2)]), Some(pt(7, 2)));
    assert_eq!(g.place_food(&vec![]), Some(pt(1, 1)));
    let g2 = game_with(20, 10, vec![pt(1, 1), pt(2, 1)], Direction::Right, pt(2, 2));
    assert_eq!(g2.place_food(&vec![pt(19, 9)]), Some(pt(3, 1)));
}

#[test]
fn random_food_lands_on_a_free_cell() {
    for _ in 0..50 {
        let mut g = game_with(6, 5, vec![pt(1, 1), pt(2, 1)], Direction::Right, pt(3, 1));
        assert_eq!(g.tick(), TickResult::AteFood);
        let f = g.food();
        assert!(f.x >= 1 && f.x <= 4 && f.y >= 1 && f.y <= 3);
        assert!(!g.snake_cells().contains(&f));
    }
    assert_eq!(SPAWN_ATTEMPTS, 64);
}

#[test]
fn pause_and_quit_stop_ticks() {
    let mut g = Game::new(20, 10, 200).unwrap();
    assert!(!g.tick_due(199));
    assert!(g.tick_due(200));
    assert_eq!(g.handle_key(Key::Char(' ')), Intent::TogglePause);
    assert!(g.is_paused());
    assert!(!g.tick_due(1000));
    g.handle_key(Key::Char(' '));
    assert!(g.tick_due(1000));
    assert_eq!(g.handle_key(Key::Char('q')), Intent::Quit);
    assert_eq!(g.outcome(), Some(EndReason::Quit));
    assert!(!g.tick_due(1000));
    g.handle_key(Key::Char('-'));
    assert_eq!(g.tick_ms(), 200);
    assert_eq!(g.tick(), TickResult::GameOver(EndReason::Quit));
}

#[test]
fn draw_list_marks_head_and_food() {
    let g = game_with(20, 10, vec![pt(4, 5), pt(5, 5)], Direction::Right, pt(7, 2));
    assert_eq!(
        sprites(&g),
        vec![
            Sprite { col: 4, row: 6, glyph: Glyph::Body },
            Sprite { col: 5, row: 6, glyph: Glyph::Head },
            Sprite { col: 7, row: 3, glyph: Glyph::Food },
        ]
    );
}

#[test]
fn presets_and_walls() {
    assert_eq!(board_preset('1'), Some((20, 10)));
    assert_eq!(board_preset('2'), Some((40, 20)));
    assert_eq!(board_preset('3'), Some((60, 30)));
    assert_eq!(board_preset('4'), None);
    assert_eq!(difficulty_preset('1'), Some(300));
    assert_eq!(difficulty_preset('2'), Some(200));
    assert_eq!(difficulty_preset('3'), Some(100));
    assert_eq!(difficulty_preset('x'), None);
    assert!(is_wall(20, 10, 0, 5));
    assert!(is_wall(20, 10, 19, 5));
    assert!(is_wall(20, 10, 5, 9));
    assert!(!is_wall(20, 10, 18, 8));
}
