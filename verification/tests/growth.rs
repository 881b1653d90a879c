use game_of_life::{Config, GameState};

fn growing(width: usize, height: usize, max: usize, interval: u64, amount: usize) -> GameState {
    let config = Config {
        initial_width: width,
        initial_height: height,
        max_width: max,
        max_height: max,
        growth_interval: interval,
        growth_amount: amount,
    };
    let mut game = GameState::with_config(config).unwrap();
    game.set_running(true);
    game
}

fn mark_all(game: &mut GameState, cells: &[(usize, usize)]) {
    for &(x, y) in cells {
        game.set_cell(x, y, true);
    }
}

fn assert_embedded(game: &GameState, old: &[(usize, usize)], dx: usize, dy: usize) {
    for y in 0..game.height() {
        for x in 0..game.width() {
            let expected = x >= dx && y >= dy && old.contains(&(x - dx, y - dy));
            assert_eq!(game.cell(x, y), Some(expected), "({}, {})", x, y);
        }
    }
}

const MARKS: [(usize, usize); 5] = [(0, 0), (9, 0), (0, 9), (9, 9), (4, 6)];

#[test]
fn growth_by_one_keeps_the_old_board_at_the_corner() {
    let mut game = growing(10, 10, 20, 50, 1);
    mark_all(&mut game, &MARKS);
    game.grow_universe();
    assert_eq!((game.width(), game.height()), (11, 11));
    assert_embedded(&game, &MARKS, 0, 0);
    assert_eq!(game.living_cells(), 5);
}

#[test]
fn growth_by_two_moves_the_old_board_by_one() {
    let mut game = growing(10, 10, 20, 50, 2);
    mark_all(&mut game, &MARKS);
    game.grow_universe();
    assert_eq!((game.width(), game.height()), (12, 12));
    assert_embedded(&game, &MARKS, 1, 1);
    assert_eq!(game.living_cells(), 5);
}

#[test]
fn growth_by_three_moves_the_old_board_by_one() {
    let mut game = growing(10, 10, 20, 50, 3);
    mark_all(&mut game, &MARKS);
    game.grow_universe();
    assert_eq!((game.width(), game.height()), (13, 13));
    assert_embedded(&game, &MARKS, 1, 1);
}

#[test]
fn growth_by_five_moves_the_old_board_by_two() {
    let mut game = growing(10, 10, 20, 50, 5);
    mark_all(&mut game, &MARKS);
    game.grow_universe();
    assert_eq!((game.width(), game.height()), (15, 15));
    assert_embedded(&game, &MARKS, 2, 2);
}

#[test]
fn growth_stops_at_the_maximum() {
    let mut game = growing(10, 10, 13, 50, 5);
    mark_all(&mut game, &MARKS);
    game.grow_universe();
    assert_eq!((game.width(), game.height()), (13, 13));
    assert_embedded(&game, &MARKS, 1, 1);
    game.grow_universe();
    assert_eq!((game.width(), game.height()), (13, 13));
    assert_embedded(&game, &MARKS, 1, 1);
}

#[test]
fn growth_with_a_huge_amount_goes_to_the_maximum() {
    let mut game = growing(10, 10, 12, 50, usize::MAX);
    game.grow_universe();
    assert_eq!((game.width(), game.height()), (12, 12));
}

#[test]
fn no_growth_when_one_axis_is_at_its_maximum() {
    let config = Config {
        initial_width: 10,
        initial_height: 8,
        max_width: 10,
        max_height: 20,
        growth_interval: 50,
        growth_amount: 1,
    };
    let mut game = GameState::with_config(config).unwrap();
    game.set_cell(3, 3, true);
    game.grow_universe();
    assert_eq!((game.width(), game.height()), (10, 8));
    assert_eq!(game.cell(3, 3), Some(true));
}

#[test]
fn axes_grow_to_different_limits() {
    let config = Config {
        initial_width: 4,
        initial_height: 4,
        max_width: 5,
        max_height: 9,
        growth_interval: 50,
        growth_amount: 4,
    };
    let mut game = GameState::with_config(config).unwrap();
    game.set_cell(0, 0, true);
    game.set_cell(3, 3, true);
    game.grow_universe();
    assert_eq!((game.width(), game.height()), (5, 8));
    assert_embedded(&game, &[(0, 0), (3, 3)], 0, 2);
}

#[test]
fn growth_leaves_the_counters() {
    let mut game = growing(6, 6, 20, 50, 2);
    game.toggle_cell(1, 1);
    game.toggle_cell(1, 1);
    game.toggle_cell(2, 2);
    game.set_auto_grow(false);
    game.step();
    let before = (
        game.generation_count(),
        game.living_cells(),
        game.cell_births(),
        game.cell_deaths(),
        game.running(),
        game.auto_grow(),
        game.speed(),
    );
    game.grow_universe();
    let after = (
        game.generation_count(),
        game.living_cells(),
        game.cell_births(),
        game.cell_deaths(),
        game.running(),
        game.auto_grow(),
        game.speed(),
    );
    assert_eq!(before, after);
    assert_eq!(game.width(), 8);
}

#[test]
fn automatic_growth_falls_due_every_interval() {
    let mut game = growing(5, 5, 20, 3, 1);
    let mut widths = Vec::new();
    for _ in 0..7 {
        game.step();
        widths.push(game.width());
    }
    assert_eq!(widths, vec![5, 5, 6, 6, 6, 7, 7]);
    assert_eq!(game.height(), 7);
    assert_eq!(game.generation_count(), 7);
}

#[test]
fn automatic_growth_can_be_switched_off() {
    let mut game = growing(5, 5, 20, 1, 1);
    game.set_auto_grow(false);
    game.step();
    game.step();
    assert_eq!((game.width(), game.height()), (5, 5));
    game.set_auto_grow(true);
    game.step();
    assert_eq!((game.width(), game.height()), (6, 6));
}

#[test]
fn interval_of_zero_never_grows() {
    let mut game = growing(5, 5, 20, 0, 1);
    for _ in 0..4 {
        game.step();
    }
    assert_eq!((game.width(), game.height()), (5, 5));
    assert_eq!(game.generation_count(), 4);
}

#[test]
fn growth_comes_after_the_generation() {
    // On a torus of 3 by 3 a full row makes every cell alive. Only then the
    // board grows, and the full block of nine lies in its middle.
    let mut game = growing(3, 3, 5, 1, 2);
    for x in 0..3 {
        game.set_cell(x, 1, true);
    }
    game.step();
    assert_eq!((game.width(), game.height()), (5, 5));
    assert_eq!(game.living_cells(), 9);
    for y in 0..5 {
        for x in 0..5 {
            let inside = (1..4).contains(&x) && (1..4).contains(&y);
            assert_eq!(game.cell(x, y), Some(inside));
        }
    }
    assert_eq!(game.cell_births(), 6);
    assert_eq!(game.cell_deaths(), 0);
}

#[test]
fn clear_starts_the_growth_count_anew() {
    let mut game = growing(5, 5, 20, 3, 1);
    game.step();
    game.step();
    game.clear();
    game.step();
    assert_eq!(game.width(), 5);
    game.step();
    assert_eq!(game.width(), 5);
    game.step();
    assert_eq!(game.width(), 6);
}
