//! What holds of the game whatever its state: laws that relate several
//! operations, proved over the model.

use vstd::prelude::*;
use vstd::arithmetic::div_mod::lemma_mod_bound;
use crate::board::{
    lemma_board_eq, lemma_board_population_zero, lemma_embedded_population,
    lemma_population_bound, lemma_with_cell_population, Board,
};
use crate::patterns::{glider, glider_gun, pulsar, r_pentomino, spaceship, Shape};
use crate::universe::Universe;

verus! {

/// On a board without live cells no cell has a live neighbour.
pub proof fn lemma_dead_neighbors(width: nat, height: nat, x: int, y: int)
    requires
        0 < width,
        0 < height,
    ensures
        Board::dead(width, height).neighbor_count(x, y) == 0,
{
    let dead = Board::dead(width, height);
    assert forall|cx: int, cy: int| !#[trigger] dead.wrapped(cx, cy) by {
        lemma_mod_bound(cx, width as int);
        lemma_mod_bound(cy, height as int);
    }
}

/// A board without live cells stays without them: its next generation is
/// dead, and no cell is born or dies.
pub proof fn lemma_dead_stays_dead(width: nat, height: nat)
    ensures
        Board::dead(width, height).next() == Board::dead(width, height),
        Board::dead(width, height).births() == 0,
        Board::dead(width, height).deaths() == 0,
        Board::dead(width, height).population() == 0,
{
    let dead = Board::dead(width, height);
    assert forall|x: int, y: int| dead.in_bounds(x, y) implies !dead.next_alive(x, y) by {
        lemma_dead_neighbors(width, height, x, y);
    }
    lemma_board_eq(dead.next(), dead);
    lemma_board_eq(dead.born(), dead);
    lemma_board_eq(dead.died(), dead);
    lemma_board_population_zero(dead);
}

/// A well-formed game stays well formed when it grows, and keeps its live
/// cells, its flags and its counters.
pub proof fn lemma_grown_wf(u: Universe)
    requires
        u.wf(),
    ensures
        u.grown().wf(),
        u.grown().living_cells == u.living_cells,
        u.grown().generation_count == u.generation_count,
        u.grown().cell_births == u.cell_births,
        u.grown().cell_deaths == u.cell_deaths,
{
    if u.can_grow() {
        lemma_embedded_population(u.board, u.grown_width(), u.grown_height());
    }
}

/// Clearing a running game and stepping it once leaves a game of one
/// generation with no live cell, no birth and no death.
pub proof fn lemma_clear_then_step(u: Universe)
    requires
        u.wf(),
        u.running,
    ensures
        u.cleared().wf(),
        u.cleared().can_step(),
        u.cleared().stepped().wf(),
        u.cleared().stepped().living_cells == 0,
        u.cleared().stepped().cell_births == 0,
        u.cleared().stepped().cell_deaths == 0,
        u.cleared().stepped().generation_count == 1,
{
    lemma_dead_stays_dead(u.board.width, u.board.height);
    let advanced = u.cleared().advanced();
    assert(advanced.wf());
    lemma_grown_wf(advanced);
}

/// Flipping a dead cell of the board counts one more live cell and one more
/// birth. Flipping it back gives the board as it was, with as many live
/// cells as before, and counts one more death.
pub proof fn lemma_toggle_accounting(u: Universe, x: int, y: int)
    requires
        u.wf(),
        u.board.in_bounds(x, y),
        !u.board.alive(x, y),
    ensures
        u.toggled(x, y).wf(),
        u.toggled(x, y).board.alive(x, y),
        u.toggled(x, y).living_cells == u.living_cells + 1,
        u.toggled(x, y).cell_births == u.cell_births + 1,
        u.toggled(x, y).cell_deaths == u.cell_deaths,
        u.toggled(x, y).toggled(x, y).wf(),
        u.toggled(x, y).toggled(x, y).board == u.board,
        u.toggled(x, y).toggled(x, y).living_cells == u.living_cells,
        u.toggled(x, y).toggled(x, y).cell_births == u.cell_births + 1,
        u.toggled(x, y).toggled(x, y).cell_deaths == u.cell_deaths + 1,
{
    let on = u.toggled(x, y);
    lemma_with_cell_population(u.board, x, y, true);
    lemma_with_cell_population(on.board, x, y, false);
    let back = on.toggled(x, y);
    assert(back.board.rows[y] =~= u.board.rows[y]);
    assert(back.board.rows =~= u.board.rows);
}

/// Flipping a cell outside the board changes nothing.
pub proof fn lemma_toggle_outside(u: Universe, x: int, y: int)
    requires
        !u.board.in_bounds(x, y),
    ensures
        u.toggled(x, y) == u,
{
}

/// Each of the five patterns lies inside its bounding box.
pub proof fn lemma_patterns_in_box()
    ensures
        glider().wf(),
        spaceship().wf(),
        glider_gun().wf(),
        pulsar().wf(),
        r_pentomino().wf(),
{
}

/// Stamping a pattern whose box does not lie on the board changes nothing,
/// whatever the pattern.
pub proof fn lemma_stamp_outside(u: Universe, shape: Shape, x: int, y: int)
    requires
        !shape.fits(u.board, x, y),
    ensures
        u.stamped(shape, x, y) == u,
{
}

/// Stamping a pattern whose box lies on the board keeps the game well
/// formed, makes the pattern's cells alive and leaves every other cell as it
/// was.
pub proof fn lemma_stamp_inside(u: Universe, shape: Shape, x: int, y: int)
    requires
        u.wf(),
        shape.fits(u.board, x, y),
    ensures
        u.stamped(shape, x, y).wf(),
        forall|cx: int, cy: int|
            u.board.in_bounds(cx, cy) ==> #[trigger] u.stamped(shape, x, y).board.alive(cx, cy) == (
            u.board.alive(cx, cy) || shape.cells.contains((cx - x, cy - y))),
{
}

/// Growth lays the old board into the new one at an offset of half the
/// added cells on each axis, rounded down: each old cell is found there,
/// and every cell of the new board outside the old one is dead.
pub proof fn lemma_growth_centering(u: Universe)
    requires
        u.wf(),
        u.can_grow(),
    ensures
        u.grown().wf(),
        u.grown().board.width == u.grown_width(),
        u.grown().board.height == u.grown_height(),
        u.board.width < u.grown().board.width || u.config.growth_amount == 0,
        u.board.height < u.grown().board.height || u.config.growth_amount == 0,
        forall|x: int, y: int|
            u.board.in_bounds(x, y) ==> #[trigger] u.grown().board.alive(
                x + (u.grown_width() - u.board.width) / 2,
                y + (u.grown_height() - u.board.height) / 2,
            ) == u.board.alive(x, y),
        forall|x: int, y: int|
            u.grown().board.in_bounds(x, y) && !u.board.in_bounds(
                x - (u.grown_width() - u.board.width) / 2,
                y - (u.grown_height() - u.board.height) / 2,
            ) ==> !#[trigger] u.grown().board.alive(x, y),
{
    lemma_grown_wf(u);
}

/// The board is a torus: the cell in the last column of the last row is a
/// neighbour of the cell in the first column of the first row, and the
/// other way round.
pub proof fn lemma_torus_corners(board: Board)
    requires
        board.wf(),
        board.width > 0,
        board.height > 0,
    ensures
        board.wrapped(-1, -1) == board.alive(board.width - 1, board.height - 1),
        board.wrapped(board.width as int, board.height as int) == board.alive(0, 0),
        board.alive(board.width - 1, board.height - 1) ==> board.neighbor_count(0, 0) >= 1,
        board.alive(0, 0) ==> board.neighbor_count(board.width - 1, board.height - 1) >= 1,
{
    crate::grid::lemma_wrap(0, board.width as int);
    crate::grid::lemma_wrap(0, board.height as int);
    crate::grid::lemma_wrap(board.width - 1, board.width as int);
    crate::grid::lemma_wrap(board.height - 1, board.height as int);
}

/// A game whose counters have headroom can take a step, and a flip of any
/// cell.
pub proof fn lemma_headroom(u: Universe, x: int, y: int)
    requires
        u.wf(),
        u.has_headroom(),
    ensures
        u.can_step(),
        u.can_toggle(x, y),
{
    lemma_population_bound(u.board.born().rows, u.board.width);
    lemma_population_bound(u.board.died().rows, u.board.width);
    if u.board.in_bounds(x, y) {
        assert(u.board.width * u.board.height >= 1) by (nonlinear_arith)
            requires
                u.board.width >= 1,
                u.board.height >= 1,
        ;
    }
}

/// A step keeps a game well formed.
pub proof fn lemma_stepped_wf(u: Universe)
    requires
        u.wf(),
    ensures
        u.stepped().wf(),
{
    if u.running {
        lemma_grown_wf(u.advanced());
    }
}

} // verus!
