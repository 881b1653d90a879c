//! The glider travels: on a board with room for it, four generations move it
//! by one cell down and one cell to the right.

use vstd::prelude::*;
use crate::board::{lemma_board_eq, Board};
use crate::grid::lemma_wrap;
use crate::patterns::glider;
use crate::universe::Universe;

verus! {

/// The cells of a glider `k` generations after it was stamped, as offsets
/// from the corner at which it was stamped. After four generations they are
/// the glider's own cells, one further down and one further right.
pub open spec fn glider_phase(k: int) -> Set<(int, int)> {
    if k <= 0 {
        glider().cells
    } else if k == 1 {
        set![(0, 1), (2, 1), (1, 2), (2, 2), (1, 3)]
    } else if k == 2 {
        set![(2, 1), (0, 2), (2, 2), (1, 3), (2, 3)]
    } else if k == 3 {
        set![(1, 1), (2, 2), (3, 2), (1, 3), (2, 3)]
    } else {
        set![(2, 1), (3, 2), (1, 3), (2, 3), (3, 3)]
    }
}

/// A board of this size has room for a glider stamped at `(x, y)` to travel
/// for four generations: the four columns and rows that it passes through
/// lie on the board, and the board is large enough for the glider not to
/// meet itself across the edges.
pub open spec fn glider_has_room(width: nat, height: nat, x: int, y: int) -> bool {
    &&& 0 <= x && x + 4 <= width && 6 <= width
    &&& 0 <= y && y + 4 <= height && 6 <= height
}

/// A dead board with nothing on it but a glider in its phase `k`.
#[verifier::opaque]
pub open spec fn glider_board(width: nat, height: nat, x: int, y: int, k: int) -> Board {
    Board::dead(width, height).stamped(glider_phase(k), x, y)
}

/// One generation takes the glider from one phase to the next.
pub proof fn lemma_glider_generation(width: nat, height: nat, x: int, y: int, k: int)
    requires
        glider_has_room(width, height, x, y),
        0 <= k < 4,
    ensures
        glider_board(width, height, x, y, k).next() == glider_board(width, height, x, y, k + 1),
{
    reveal(glider_board);
    let now = glider_board(width, height, x, y, k);
    let then = glider_board(width, height, x, y, k + 1);
    assert forall|cx: int, cy: int| now.in_bounds(cx, cy) implies now.next_alive(cx, cy)
        == then.alive(cx, cy) by {
        lemma_wrap(cx, width as int);
        lemma_wrap(cy, height as int);
    }
    lemma_board_eq(now.next(), then);
}

/// The glider's last phase is the glider itself, one cell further down and
/// one further right.
pub proof fn lemma_glider_last_phase(width: nat, height: nat, x: int, y: int)
    ensures
        glider_board(width, height, x, y, 4) == Board::dead(width, height).stamped(
            glider().cells,
            x + 1,
            y + 1,
        ),
        glider_board(width, height, x, y, 0) == Board::dead(width, height).stamped(
            glider().cells,
            x,
            y,
        ),
{
    reveal(glider_board);
    lemma_board_eq(
        glider_board(width, height, x, y, 4),
        Board::dead(width, height).stamped(glider().cells, x + 1, y + 1),
    );
}

/// Four generations after a glider was stamped at `(x, y)` on a dead board
/// with room for it, the board is the one on which a glider was stamped at
/// `(x + 1, y + 1)`.
pub proof fn lemma_glider_travels(width: nat, height: nat, x: int, y: int)
    requires
        glider_has_room(width, height, x, y),
    ensures
        Board::dead(width, height).stamped(glider().cells, x, y).next().next().next().next()
            == Board::dead(width, height).stamped(glider().cells, x + 1, y + 1),
{
    let start = glider_board(width, height, x, y, 0);
    let first = glider_board(width, height, x, y, 1);
    let second = glider_board(width, height, x, y, 2);
    let third = glider_board(width, height, x, y, 3);
    let last = glider_board(width, height, x, y, 4);
    assert(start.next() == first) by {
        lemma_glider_generation(width, height, x, y, 0);
    }
    assert(first.next() == second) by {
        lemma_glider_generation(width, height, x, y, 1);
    }
    assert(second.next() == third) by {
        lemma_glider_generation(width, height, x, y, 2);
    }
    assert(third.next() == last) by {
        lemma_glider_generation(width, height, x, y, 3);
    }
    assert(start == Board::dead(width, height).stamped(glider().cells, x, y) && last
        == Board::dead(width, height).stamped(glider().cells, x + 1, y + 1)) by {
        lemma_glider_last_phase(width, height, x, y);
    }
}

/// The game `u` is the game `start` with a glider in its phase `k` on the
/// board, `k` generations later.
#[verifier::opaque]
spec fn glider_game(u: Universe, start: Universe, x: int, y: int, k: int) -> bool {
    &&& u.wf()
    &&& u.running
    &&& u.board == glider_board(start.board.width, start.board.height, x, y, k)
    &&& u.config == start.config
    &&& u.auto_grow == start.auto_grow
    &&& u.update_counter == start.update_counter + k
    &&& u.generation_count == start.generation_count + k
}

/// One step takes the game with the glider from one phase to the next.
proof fn lemma_glider_game_step(u: Universe, start: Universe, x: int, y: int, k: int)
    requires
        glider_game(u, start, x, y, k),
        glider_has_room(start.board.width, start.board.height, x, y),
        start.keeps_size_for(4),
        0 <= k < 4,
    ensures
        glider_game(u.stepped(), start, x, y, k + 1),
{
    reveal(glider_game);
    let width = start.board.width;
    let height = start.board.height;
    lemma_glider_generation(width, height, x, y, k);
    assert(u.board.width == width && u.board.height == height) by {
        reveal(glider_board);
    }
    let advanced = u.advanced();
    assert(advanced.growth_due() == start.after_generations(k + 1).growth_due());
    assert(advanced.can_grow() == start.can_grow());
    crate::laws::lemma_stepped_wf(u);
}

/// Stamping the glider on a dead board starts the game with the glider.
proof fn lemma_glider_game_start(u: Universe, x: int, y: int)
    requires
        u.wf(),
        u.running,
        u.board == Board::dead(u.board.width, u.board.height),
        glider_has_room(u.board.width, u.board.height, x, y),
    ensures
        glider_game(u.stamped(glider(), x, y), u, x, y, 0),
{
    reveal(glider_game);
    lemma_glider_last_phase(u.board.width, u.board.height, x, y);
}

/// The game with the glider in its last phase holds the glider one cell
/// further down and right, four generations on.
proof fn lemma_glider_game_end(last: Universe, u: Universe, x: int, y: int)
    requires
        glider_game(last, u, x, y, 4),
        u.board == Board::dead(u.board.width, u.board.height),
    ensures
        last.wf(),
        last.board == u.board.stamped(glider().cells, x + 1, y + 1),
        last.generation_count == u.generation_count + 4,
{
    reveal(glider_game);
    lemma_glider_last_phase(u.board.width, u.board.height, x, y);
}

/// On a running game with a dead board that has room for it and keeps its
/// size meanwhile, stamping a glider at `(x, y)` and stepping four times
/// gives the board on which the glider was stamped at `(x + 1, y + 1)`, four
/// generations later.
pub proof fn lemma_glider_invariant(u: Universe, x: int, y: int)
    requires
        u.wf(),
        u.running,
        u.board == Board::dead(u.board.width, u.board.height),
        glider_has_room(u.board.width, u.board.height, x, y),
        u.keeps_size_for(4),
    ensures
        u.stamped(glider(), x, y).stepped().stepped().stepped().stepped().wf(),
        u.stamped(glider(), x, y).stepped().stepped().stepped().stepped().board
            == u.board.stamped(glider().cells, x + 1, y + 1),
        u.stamped(glider(), x, y).stepped().stepped().stepped().stepped().generation_count
            == u.generation_count + 4,
{
    let stamped = u.stamped(glider(), x, y);
    let one = stamped.stepped();
    let two = one.stepped();
    let three = two.stepped();
    let four = three.stepped();
    lemma_glider_game_start(u, x, y);
    lemma_glider_game_step(stamped, u, x, y, 0);
    lemma_glider_game_step(one, u, x, y, 1);
    lemma_glider_game_step(two, u, x, y, 2);
    lemma_glider_game_step(three, u, x, y, 3);
    lemma_glider_game_end(four, u, x, y);
}

} // verus!
