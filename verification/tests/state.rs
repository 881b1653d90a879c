use game_of_life::config::{
    GROWTH_AMOUNT, GROWTH_INTERVAL, INITIAL_GRID_HEIGHT, INITIAL_GRID_WIDTH, INITIAL_SPEED,
    MAX_GRID_HEIGHT, MAX_GRID_WIDTH,
};
use game_of_life::{Config, Density, GameState};

fn board(width: usize, height: usize) -> GameState {
    let config = Config {
        initial_width: width,
        initial_height: height,
        max_width: width,
        max_height: height,
        growth_interval: 50,
        growth_amount: 1,
    };
    let mut game = GameState::with_config(config).unwrap();
    game.set_running(true);
    game
}

#[test]
fn new_game_is_dead_paused_and_of_the_standard_size() {
    let game = GameState::new();
    assert_eq!(game.width(), 150);
    assert_eq!(game.height(), 100);
    assert_eq!(game.living_cells(), 0);
    assert_eq!(game.generation_count(), 0);
    assert_eq!(game.cell_births(), 0);
    assert_eq!(game.cell_deaths(), 0);
    assert!(!game.running());
    assert!(game.auto_grow());
    assert_eq!(game.speed(), 100);
    assert_eq!(game.config(), Config::default());
    for y in 0..100 {
        for x in 0..150 {
            assert_eq!(game.cell(x, y), Some(false));
        }
    }
    assert_eq!(game.cell(150, 0), None);
    assert_eq!(game.cell(0, 100), None);
}

#[test]
fn standard_configuration_has_the_documented_values() {
    let config = Config::default();
    assert_eq!(config.initial_width, 150);
    assert_eq!(config.initial_height, 100);
    assert_eq!(config.max_width, 5000);
    assert_eq!(config.max_height, 3000);
    assert_eq!(config.growth_interval, 50);
    assert_eq!(config.growth_amount, 1);
    assert_eq!(INITIAL_GRID_WIDTH, 150);
    assert_eq!(INITIAL_GRID_HEIGHT, 100);
    assert_eq!(MAX_GRID_WIDTH, 5000);
    assert_eq!(MAX_GRID_HEIGHT, 3000);
    assert_eq!(GROWTH_INTERVAL, 50);
    assert_eq!(GROWTH_AMOUNT, 1);
    assert_eq!(INITIAL_SPEED, 100);
    assert!(config.is_valid());
}

#[test]
fn configuration_that_starts_above_its_maximum_is_refused() {
    let wide = Config {
        initial_width: 11,
        initial_height: 5,
        max_width: 10,
        max_height: 10,
        growth_interval: 1,
        growth_amount: 1,
    };
    assert!(!wide.is_valid());
    assert!(GameState::with_config(wide).is_none());
    let tall = Config { initial_width: 5, initial_height: 11, ..wide };
    assert!(!tall.is_valid());
    assert!(GameState::with_config(tall).is_none());
}

#[test]
fn configuration_with_more_cells_than_fit_is_refused() {
    let huge = Config {
        initial_width: 1,
        initial_height: 1,
        max_width: usize::MAX,
        max_height: 2,
        growth_interval: 1,
        growth_amount: 1,
    };
    assert!(!huge.is_valid());
    assert!(GameState::with_config(huge).is_none());
    let edge = Config { max_height: 1, ..huge };
    assert!(edge.is_valid());
    assert!(GameState::with_config(edge).is_some());
}

#[test]
fn density_is_a_probability() {
    assert!(Density::new(1, 0).is_none());
    assert!(Density::new(0, 0).is_none());
    assert!(Density::new(3, 2).is_none());
    assert_eq!(Density::new(0, 1), Some(Density { numerator: 0, denominator: 1 }));
    assert_eq!(Density::new(7, 7), Some(Density { numerator: 7, denominator: 7 }));
    assert_eq!(Density::default_fill(), Density { numerator: 1, denominator: 5 });
    assert_eq!(Density::default_center(), Density { numerator: 3, denominator: 10 });
}

#[test]
fn clear_then_step_leaves_one_generation_and_nothing_else() {
    let mut game = board(6, 4);
    game.set_cell(1, 1, true);
    game.toggle_cell(2, 2);
    game.step();
    game.clear();
    assert_eq!(game.generation_count(), 0);
    game.step();
    assert_eq!(game.living_cells(), 0);
    assert_eq!(game.cell_births(), 0);
    assert_eq!(game.cell_deaths(), 0);
    assert_eq!(game.generation_count(), 1);
    assert_eq!(game.width(), 6);
    assert_eq!(game.height(), 4);
}

#[test]
fn clear_keeps_size_and_flags() {
    let mut game = board(4, 3);
    game.set_speed(250);
    game.set_auto_grow(false);
    game.add_glider(0, 0);
    game.step();
    game.clear();
    assert_eq!((game.width(), game.height()), (4, 3));
    assert!(game.running());
    assert!(!game.auto_grow());
    assert_eq!(game.speed(), 250);
    assert_eq!(game.living_cells(), 0);
    for y in 0..3 {
        for x in 0..4 {
            assert_eq!(game.cell(x, y), Some(false));
        }
    }
}

#[test]
fn toggle_counts_births_and_deaths() {
    let mut game = board(5, 5);
    game.toggle_cell(3, 1);
    assert_eq!(game.cell(3, 1), Some(true));
    assert_eq!(game.living_cells(), 1);
    assert_eq!(game.cell_births(), 1);
    assert_eq!(game.cell_deaths(), 0);
    game.toggle_cell(3, 1);
    assert_eq!(game.cell(3, 1), Some(false));
    assert_eq!(game.living_cells(), 0);
    assert_eq!(game.cell_births(), 1);
    assert_eq!(game.cell_deaths(), 1);
    assert_eq!(game.generation_count(), 0);
}

#[test]
fn toggle_outside_the_board_does_nothing() {
    let mut game = board(5, 4);
    game.toggle_cell(5, 0);
    game.toggle_cell(0, 4);
    game.toggle_cell(usize::MAX, usize::MAX);
    assert_eq!(game.living_cells(), 0);
    assert_eq!(game.cell_births(), 0);
    assert_eq!(game.cell_deaths(), 0);
}

#[test]
fn set_cell_counts_live_cells_only() {
    let mut game = board(3, 3);
    game.set_cell(1, 2, true);
    game.set_cell(1, 2, true);
    game.set_cell(0, 0, true);
    assert_eq!(game.living_cells(), 2);
    game.set_cell(0, 0, false);
    game.set_cell(2, 2, false);
    assert_eq!(game.living_cells(), 1);
    assert_eq!(game.cell_births(), 0);
    assert_eq!(game.cell_deaths(), 0);
    game.set_cell(3, 0, true);
    game.set_cell(0, 3, true);
    assert_eq!(game.living_cells(), 1);
    assert_eq!(game.cell(1, 2), Some(true));
}

#[test]
fn update_statistics_recounts() {
    let mut game = board(4, 4);
    game.set_cell(0, 0, true);
    game.set_cell(3, 3, true);
    game.update_statistics();
    assert_eq!(game.living_cells(), 2);
}

#[test]
fn flags_and_speed_are_stored() {
    let mut game = GameState::new();
    game.set_running(true);
    assert!(game.running());
    game.set_running(false);
    assert!(!game.running());
    game.set_auto_grow(false);
    assert!(!game.auto_grow());
    game.set_speed(10);
    assert_eq!(game.speed(), 10);
    assert_eq!(game.width(), 150);
    assert_eq!(game.living_cells(), 0);
}

#[test]
fn headroom_is_there_for_a_fresh_game() {
    let game = board(10, 10);
    assert!(game.has_headroom());
    assert!(GameState::new().has_headroom());
}
