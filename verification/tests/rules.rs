use game_of_life::grid::{next_state, two_thirds, wrap_after, wrap_before};
use game_of_life::{Config, GameState};

fn fixed_board(width: usize, height: usize) -> GameState {
    let config = Config {
        initial_width: width,
        initial_height: height,
        max_width: width,
        max_height: height,
        growth_interval: 50,
        growth_amount: 1,
    };
    let mut game = GameState::with_config(config).unwrap();
    game.set_running(true);
    game
}

/// On a torus of 3 by 3 cells every other cell is a neighbour of the centre.
const AROUND: [(usize, usize); 8] =
    [(0, 0), (1, 0), (2, 0), (0, 1), (2, 1), (0, 2), (1, 2), (2, 2)];

fn centre_after_step(alive: bool, neighbors: usize) -> (bool, GameState) {
    let mut game = fixed_board(3, 3);
    game.set_cell(1, 1, alive);
    for &(x, y) in AROUND.iter().take(neighbors) {
        game.set_cell(x, y, true);
    }
    assert_eq!(game.count_alive_neighbors(1, 1), neighbors);
    game.step();
    (game.cell(1, 1).unwrap(), game)
}

#[test]
fn rule_table_is_exact() {
    for n in 0..=8usize {
        assert_eq!(next_state(true, n), n == 2 || n == 3);
        assert_eq!(next_state(false, n), n == 3);
    }
    assert!(!next_state(true, 9));
    assert!(!next_state(false, usize::MAX));
}

#[test]
fn live_cell_without_neighbors_dies() {
    let (alive, game) = centre_after_step(true, 0);
    assert!(!alive);
    assert_eq!(game.living_cells(), 0);
    assert_eq!(game.cell_deaths(), 1);
    assert_eq!(game.cell_births(), 0);
}

#[test]
fn live_cell_with_one_neighbor_dies() {
    let (alive, _) = centre_after_step(true, 1);
    assert!(!alive);
}

#[test]
fn live_cell_with_two_neighbors_survives() {
    let (alive, _) = centre_after_step(true, 2);
    assert!(alive);
}

#[test]
fn live_cell_with_three_neighbors_survives() {
    let (alive, _) = centre_after_step(true, 3);
    assert!(alive);
}

#[test]
fn live_cell_with_four_or_more_neighbors_dies() {
    for n in 4..=8 {
        let (alive, _) = centre_after_step(true, n);
        assert!(!alive, "{} neighbours", n);
    }
}

#[test]
fn dead_cell_with_two_neighbors_stays_dead() {
    let (alive, _) = centre_after_step(false, 2);
    assert!(!alive);
}

#[test]
fn dead_cell_with_three_neighbors_is_born() {
    let (alive, _) = centre_after_step(false, 3);
    assert!(alive);
}

#[test]
fn dead_cell_with_four_neighbors_stays_dead() {
    let (alive, _) = centre_after_step(false, 4);
    assert!(!alive);
}

#[test]
fn dead_cell_with_other_counts_stays_dead() {
    for n in [0usize, 1, 5, 6, 7, 8] {
        let (alive, _) = centre_after_step(false, n);
        assert!(!alive, "{} neighbours", n);
    }
}

#[test]
fn corner_cells_are_neighbors_across_the_edges() {
    let mut game = fixed_board(3, 3);
    game.set_cell(0, 0, true);
    assert_eq!(game.count_alive_neighbors(2, 2), 1);
    assert_eq!(game.count_alive_neighbors(0, 0), 0);
    let mut other = fixed_board(3, 3);
    other.set_cell(2, 2, true);
    assert_eq!(other.count_alive_neighbors(0, 0), 1);
}

#[test]
fn wraparound_on_a_wide_board() {
    let mut game = fixed_board(7, 5);
    game.set_cell(0, 0, true);
    assert_eq!(game.count_alive_neighbors(6, 4), 1);
    assert_eq!(game.count_alive_neighbors(6, 0), 1);
    assert_eq!(game.count_alive_neighbors(0, 4), 1);
    assert_eq!(game.count_alive_neighbors(1, 1), 1);
    assert_eq!(game.count_alive_neighbors(3, 2), 0);
}

#[test]
fn narrow_boards_count_a_cell_once_for_each_place() {
    // One column: the cell itself stands left and right of itself.
    let mut column = fixed_board(1, 3);
    column.set_cell(0, 1, true);
    assert_eq!(column.count_alive_neighbors(0, 1), 2);
    assert_eq!(column.count_alive_neighbors(0, 0), 3);
    // One cell: it stands at all eight places.
    let mut single = fixed_board(1, 1);
    single.set_cell(0, 0, true);
    assert_eq!(single.count_alive_neighbors(0, 0), 8);
    // Two columns: the other column stands left and right.
    let mut pair = fixed_board(2, 3);
    pair.set_cell(1, 1, true);
    assert_eq!(pair.count_alive_neighbors(0, 1), 2);
}

#[test]
fn wrap_helpers_go_round_the_ring() {
    assert_eq!(wrap_before(0, 5), 4);
    assert_eq!(wrap_before(3, 5), 2);
    assert_eq!(wrap_after(4, 5), 0);
    assert_eq!(wrap_after(2, 5), 3);
    assert_eq!(wrap_before(0, 1), 0);
    assert_eq!(wrap_after(0, 1), 0);
}

#[test]
fn two_thirds_rounds_down() {
    assert_eq!(two_thirds(0), 0);
    assert_eq!(two_thirds(1), 0);
    assert_eq!(two_thirds(2), 1);
    assert_eq!(two_thirds(3), 2);
    assert_eq!(two_thirds(10), 6);
    assert_eq!(two_thirds(150), 100);
    assert_eq!(two_thirds(usize::MAX), usize::MAX / 3 * 2);
}

#[test]
fn step_judges_every_cell_against_the_old_board() {
    // A blinker turns from lying to standing and back.
    let mut game = fixed_board(5, 5);
    for x in 1..4 {
        game.set_cell(x, 2, true);
    }
    game.step();
    for y in 0..5 {
        for x in 0..5 {
            assert_eq!(game.cell(x, y), Some(x == 2 && (1..4).contains(&y)), "({}, {})", x, y);
        }
    }
    assert_eq!(game.cell_births(), 2);
    assert_eq!(game.cell_deaths(), 2);
    assert_eq!(game.living_cells(), 3);
    assert_eq!(game.generation_count(), 1);
    game.step();
    for y in 0..5 {
        for x in 0..5 {
            assert_eq!(game.cell(x, y), Some(y == 2 && (1..4).contains(&x)));
        }
    }
    assert_eq!(game.cell_births(), 4);
    assert_eq!(game.cell_deaths(), 4);
    assert_eq!(game.generation_count(), 2);
}

#[test]
fn paused_game_does_not_step() {
    let mut game = fixed_board(5, 5);
    for x in 1..4 {
        game.set_cell(x, 2, true);
    }
    game.set_running(false);
    game.step();
    assert_eq!(game.generation_count(), 0);
    assert_eq!(game.cell(1, 2), Some(true));
    assert_eq!(game.cell(2, 1), Some(false));
    assert_eq!(game.cell_births(), 0);
}

#[test]
fn step_on_an_empty_board_counts_the_generation() {
    let mut game = fixed_board(0, 0);
    game.step();
    assert_eq!(game.generation_count(), 1);
    assert_eq!(game.living_cells(), 0);
    let mut flat = fixed_board(4, 0);
    flat.step();
    assert_eq!(flat.generation_count(), 1);
    assert_eq!(flat.width(), 4);
    assert_eq!(flat.height(), 0);
}
