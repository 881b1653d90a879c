//! The mathematical model of the board: a rectangle of cells on a torus,
//! the transition rule, and the counting of live cells.

use vstd::prelude::*;

verus! {

/// One for a live cell, zero for a dead one.
pub open spec fn indicator(alive: bool) -> nat {
    if alive {
        1
    } else {
        0
    }
}

/// The transition rule: a live cell survives with two or three live
/// neighbours, a dead cell comes alive with exactly three.
pub open spec fn rule(alive: bool, neighbors: nat) -> bool {
    if alive {
        neighbors == 2 || neighbors == 3
    } else {
        neighbors == 3
    }
}

/// The number of live cells in one row.
pub open spec fn row_population(row: Seq<bool>) -> nat
    decreases row.len(),
{
    if row.len() == 0 {
        0
    } else {
        row_population(row.drop_last()) + indicator(row.last())
    }
}

/// The number of live cells in a sequence of rows.
pub open spec fn population(rows: Seq<Seq<bool>>) -> nat
    decreases rows.len(),
{
    if rows.len() == 0 {
        0
    } else {
        population(rows.drop_last()) + row_population(rows.last())
    }
}

/// A board of `width` columns and `height` rows. `rows[y][x]` is the cell in
/// column `x` of row `y`.
pub struct Board {
    pub width: nat,
    pub height: nat,
    pub rows: Seq<Seq<bool>>,
}

impl Board {
    /// The board is a full rectangle: `height` rows of `width` cells each.
    pub open spec fn wf(self) -> bool {
        &&& self.rows.len() == self.height
        &&& forall|y: int| 0 <= y < self.height ==> (#[trigger] self.rows[y]).len() == self.width
    }

    /// The board whose cell `(x, y)` is `f(x, y)`.
    pub open spec fn from_fn(width: nat, height: nat, f: spec_fn(int, int) -> bool) -> Board {
        Board {
            width,
            height,
            rows: Seq::new(height, |y: int| Seq::new(width, |x: int| f(x, y))),
        }
    }

    /// The board of the given size with no live cell.
    pub open spec fn dead(width: nat, height: nat) -> Board {
        Board::from_fn(width, height, |x: int, y: int| false)
    }

    /// Whether the board has a cell in column `x` of row `y`.
    pub open spec fn in_bounds(self, x: int, y: int) -> bool {
        0 <= x < self.width && 0 <= y < self.height
    }

    /// The state of the cell in column `x` of row `y`.
    pub open spec fn alive(self, x: int, y: int) -> bool
        recommends
            self.in_bounds(x, y),
    {
        self.rows[y][x]
    }

    /// The state of the cell that `(x, y)` names on the torus: coordinates
    /// are taken modulo the board's size, so that `-1` is the last column or
    /// row and `width` is column 0.
    pub open spec fn wrapped(self, x: int, y: int) -> bool
        recommends
            self.width > 0,
            self.height > 0,
    {
        self.alive(x % (self.width as int), y % (self.height as int))
    }

    /// The number of live cells among the eight cells around `(x, y)` on the
    /// torus. On a board narrower than three cells one cell can stand at
    /// several of the eight places, and counts once for each.
    pub open spec fn neighbor_count(self, x: int, y: int) -> nat {
        indicator(self.wrapped(x - 1, y - 1)) + indicator(self.wrapped(x, y - 1)) + indicator(
            self.wrapped(x + 1, y - 1),
        ) + indicator(self.wrapped(x - 1, y)) + indicator(self.wrapped(x + 1, y)) + indicator(
            self.wrapped(x - 1, y + 1),
        ) + indicator(self.wrapped(x, y + 1)) + indicator(self.wrapped(x + 1, y + 1))
    }

    /// The state of cell `(x, y)` one generation later.
    pub open spec fn next_alive(self, x: int, y: int) -> bool {
        rule(self.alive(x, y), self.neighbor_count(x, y))
    }

    /// The next generation: every cell judged against this board.
    pub open spec fn next(self) -> Board {
        Board::from_fn(self.width, self.height, |x: int, y: int| self.next_alive(x, y))
    }

    /// The cells that are dead now and alive in the next generation.
    pub open spec fn born(self) -> Board {
        Board::from_fn(
            self.width,
            self.height,
            |x: int, y: int| !self.alive(x, y) && self.next_alive(x, y),
        )
    }

    /// The cells that are alive now and dead in the next generation.
    pub open spec fn died(self) -> Board {
        Board::from_fn(
            self.width,
            self.height,
            |x: int, y: int| self.alive(x, y) && !self.next_alive(x, y),
        )
    }

    /// The number of live cells.
    pub open spec fn population(self) -> nat {
        population(self.rows)
    }

    /// The number of cells that the next generation brings to life.
    pub open spec fn births(self) -> nat {
        self.born().population()
    }

    /// The number of cells that the next generation kills.
    pub open spec fn deaths(self) -> nat {
        self.died().population()
    }

    /// This board with cell `(x, y)` set to `alive`.
    pub open spec fn with_cell(self, x: int, y: int, alive: bool) -> Board
        recommends
            self.in_bounds(x, y),
    {
        Board { rows: self.rows.update(y, self.rows[y].update(x, alive)), ..self }
    }

    /// This board laid into the middle of a dead board of the given size.
    /// The old cell `(x, y)` becomes the cell `(x + dx, y + dy)`, where `dx`
    /// and `dy` are half of what was added on each axis, rounded down.
    pub open spec fn embedded(self, width: nat, height: nat) -> Board
        recommends
            self.width <= width,
            self.height <= height,
    {
        let dx = (width - self.width) / 2;
        let dy = (height - self.height) / 2;
        Board::from_fn(
            width,
            height,
            |x: int, y: int| self.in_bounds(x - dx, y - dy) && self.alive(x - dx, y - dy),
        )
    }
}

/// Two rectangles of one size with the same cells are the same board.
pub proof fn lemma_board_eq(a: Board, b: Board)
    requires
        a.wf(),
        b.wf(),
        a.width == b.width,
        a.height == b.height,
        forall|x: int, y: int| a.in_bounds(x, y) ==> a.alive(x, y) == b.alive(x, y),
    ensures
        a == b,
{
    assert forall|y: int| 0 <= y < a.height implies #[trigger] a.rows[y] == b.rows[y] by {
        assert forall|x: int| 0 <= x < a.width implies a.rows[y][x] == b.rows[y][x] by {
            assert(a.in_bounds(x, y));
        }
        assert(a.rows[y] =~= b.rows[y]);
    }
    assert(a.rows =~= b.rows);
}

/// Counting a row cell by cell: the first `n + 1` cells hold what the first
/// `n` hold, and one more where cell `n` is alive.
pub proof fn lemma_row_population_step(row: Seq<bool>, n: int)
    requires
        0 <= n < row.len(),
    ensures
        row_population(row.take(n + 1)) == row_population(row.take(n)) + indicator(row[n]),
{
    assert(row.take(n + 1).drop_last() =~= row.take(n));
}

/// Counting a board row by row.
pub proof fn lemma_population_step(rows: Seq<Seq<bool>>, n: int)
    requires
        0 <= n < rows.len(),
    ensures
        population(rows.take(n + 1)) == population(rows.take(n)) + row_population(rows[n]),
{
    assert(rows.take(n + 1).drop_last() =~= rows.take(n));
}

/// The live cells of two rows laid end to end are those of both.
pub proof fn lemma_row_population_concat(a: Seq<bool>, b: Seq<bool>)
    ensures
        row_population(a + b) == row_population(a) + row_population(b),
    decreases b.len(),
{
    if b.len() == 0 {
        assert(a + b =~= a);
    } else {
        lemma_row_population_concat(a, b.drop_last());
        assert((a + b).drop_last() =~= a + b.drop_last());
    }
}

/// The live cells of two stacks of rows, one above the other, are those of
/// both.
pub proof fn lemma_population_concat(a: Seq<Seq<bool>>, b: Seq<Seq<bool>>)
    ensures
        population(a + b) == population(a) + population(b),
    decreases b.len(),
{
    if b.len() == 0 {
        assert(a + b =~= a);
    } else {
        lemma_population_concat(a, b.drop_last());
        assert((a + b).drop_last() =~= a + b.drop_last());
    }
}

/// A row has no live cell exactly when each of its cells is dead, and never
/// more live cells than cells.
pub proof fn lemma_row_population_bounds(row: Seq<bool>)
    ensures
        row_population(row) <= row.len(),
        row_population(row) == 0 <==> forall|x: int| 0 <= x < row.len() ==> !row[x],
    decreases row.len(),
{
    if row.len() > 0 {
        let front = row.drop_last();
        lemma_row_population_bounds(front);
        if row_population(row) == 0 {
            assert forall|x: int| 0 <= x < row.len() implies !row[x] by {
                if x < front.len() {
                    assert(row[x] == front[x]);
                }
            }
        }
        if forall|x: int| 0 <= x < row.len() ==> !row[x] {
            assert forall|x: int| 0 <= x < front.len() implies !front[x] by {
                assert(front[x] == row[x]);
            }
        }
    }
}

/// A stack of rows has no live cell exactly when none of its rows has one.
pub proof fn lemma_population_zero(rows: Seq<Seq<bool>>)
    ensures
        population(rows) == 0 <==> forall|y: int|
            0 <= y < rows.len() ==> row_population(#[trigger] rows[y]) == 0,
    decreases rows.len(),
{
    if rows.len() > 0 {
        let front = rows.drop_last();
        lemma_population_zero(front);
        if population(rows) == 0 {
            assert forall|y: int| 0 <= y < rows.len() implies row_population(#[trigger] rows[y])
                == 0 by {
                if y < front.len() {
                    assert(rows[y] == front[y]);
                }
            }
        }
        if forall|y: int| 0 <= y < rows.len() ==> row_population(#[trigger] rows[y]) == 0 {
            assert forall|y: int| 0 <= y < front.len() implies row_population(#[trigger] front[y])
                == 0 by {
                assert(front[y] == rows[y]);
            }
        }
    }
}

/// A rectangle of `height` rows of `width` cells holds at most
/// `width * height` live cells.
pub proof fn lemma_population_bound(rows: Seq<Seq<bool>>, width: nat)
    requires
        forall|y: int| 0 <= y < rows.len() ==> (#[trigger] rows[y]).len() == width,
    ensures
        population(rows) <= width * rows.len(),
    decreases rows.len(),
{
    if rows.len() > 0 {
        let front = rows.drop_last();
        assert forall|y: int| 0 <= y < front.len() implies (#[trigger] front[y]).len() == width by {
            assert(front[y] == rows[y]);
        }
        lemma_population_bound(front, width);
        lemma_row_population_bounds(rows.last());
        assert(width * front.len() + width == width * rows.len()) by (nonlinear_arith)
            requires
                front.len() + 1 == rows.len(),
        ;
    } else {
        assert(width * rows.len() == 0) by (nonlinear_arith)
            requires
                rows.len() == 0,
        ;
    }
}

/// A board is without live cells exactly when each of its cells is dead.
pub proof fn lemma_board_population_zero(board: Board)
    requires
        board.wf(),
    ensures
        board.population() == 0 <==> forall|x: int, y: int|
            board.in_bounds(x, y) ==> !board.alive(x, y),
{
    lemma_population_zero(board.rows);
    if board.population() == 0 {
        assert forall|x: int, y: int| board.in_bounds(x, y) implies !board.alive(x, y) by {
            lemma_row_population_bounds(board.rows[y]);
        }
    }
    if forall|x: int, y: int| board.in_bounds(x, y) ==> !board.alive(x, y) {
        assert forall|y: int| 0 <= y < board.rows.len() implies row_population(
            #[trigger] board.rows[y],
        ) == 0 by {
            lemma_row_population_bounds(board.rows[y]);
            assert forall|x: int| 0 <= x < board.rows[y].len() implies !board.rows[y][x] by {
                assert(board.in_bounds(x, y));
                assert(!board.alive(x, y));
            }
        }
    }
}

/// Changing one cell of a row changes the count by that cell alone.
pub proof fn lemma_row_population_update(row: Seq<bool>, x: int, alive: bool)
    requires
        0 <= x < row.len(),
    ensures
        row_population(row.update(x, alive)) + indicator(row[x]) == row_population(row)
            + indicator(alive),
{
    let front = row.take(x);
    let back = row.skip(x + 1);
    assert(row =~= front + seq![row[x]] + back);
    assert(row.update(x, alive) =~= front + seq![alive] + back);
    lemma_row_population_concat(front, seq![row[x]]);
    lemma_row_population_concat(front + seq![row[x]], back);
    lemma_row_population_concat(front, seq![alive]);
    lemma_row_population_concat(front + seq![alive], back);
    assert(seq![row[x]].drop_last() =~= Seq::<bool>::empty());
    assert(seq![alive].drop_last() =~= Seq::<bool>::empty());
    assert(row_population(seq![row[x]]) == indicator(row[x])) by {
        reveal_with_fuel(row_population, 2);
    }
    assert(row_population(seq![alive]) == indicator(alive)) by {
        reveal_with_fuel(row_population, 2);
    }
}

/// Replacing one row changes the count by that row alone.
pub proof fn lemma_population_update(rows: Seq<Seq<bool>>, y: int, row: Seq<bool>)
    requires
        0 <= y < rows.len(),
    ensures
        population(rows.update(y, row)) + row_population(rows[y]) == population(rows)
            + row_population(row),
{
    let front = rows.take(y);
    let back = rows.skip(y + 1);
    assert(rows =~= front + seq![rows[y]] + back);
    assert(rows.update(y, row) =~= front + seq![row] + back);
    lemma_population_concat(front, seq![rows[y]]);
    lemma_population_concat(front + seq![rows[y]], back);
    lemma_population_concat(front, seq![row]);
    lemma_population_concat(front + seq![row], back);
    assert(seq![rows[y]].drop_last() =~= Seq::<Seq<bool>>::empty());
    assert(seq![row].drop_last() =~= Seq::<Seq<bool>>::empty());
    assert(population(seq![rows[y]]) == row_population(rows[y])) by {
        reveal_with_fuel(population, 2);
    }
    assert(population(seq![row]) == row_population(row)) by {
        reveal_with_fuel(population, 2);
    }
}

/// Setting one cell changes the board's population by that cell alone.
pub proof fn lemma_with_cell_population(board: Board, x: int, y: int, alive: bool)
    requires
        board.wf(),
        board.in_bounds(x, y),
    ensures
        board.with_cell(x, y, alive).wf(),
        board.with_cell(x, y, alive).population() + indicator(board.alive(x, y))
            == board.population() + indicator(alive),
{
    lemma_row_population_update(board.rows[y], x, alive);
    lemma_population_update(board.rows, y, board.rows[y].update(x, alive));
}

/// A row with dead cells added before and after it holds as many live cells
/// as the row.
pub proof fn lemma_row_population_padded(row: Seq<bool>, padded: Seq<bool>, dx: int)
    requires
        0 <= dx,
        dx + row.len() <= padded.len(),
        forall|x: int|
            0 <= x < padded.len() ==> #[trigger] padded[x] == (dx <= x < dx + row.len() && row[x
                - dx]),
    ensures
        row_population(padded) == row_population(row),
{
    let left = padded.take(dx);
    let right = padded.skip(dx + row.len());
    assert(padded =~= left + row + right);
    lemma_row_population_concat(left, row);
    lemma_row_population_concat(left + row, right);
    lemma_row_population_bounds(left);
    lemma_row_population_bounds(right);
}

/// Two stacks of rows that agree row by row in their counts agree in their
/// count.
pub proof fn lemma_population_by_rows(a: Seq<Seq<bool>>, b: Seq<Seq<bool>>)
    requires
        a.len() == b.len(),
        forall|y: int| 0 <= y < a.len() ==> row_population(#[trigger] a[y]) == row_population(b[y]),
    ensures
        population(a) == population(b),
    decreases a.len(),
{
    if a.len() > 0 {
        let fa = a.drop_last();
        let fb = b.drop_last();
        assert forall|y: int| 0 <= y < fa.len() implies row_population(#[trigger] fa[y])
            == row_population(fb[y]) by {
            assert(fa[y] == a[y]);
            assert(fb[y] == b[y]);
        }
        lemma_population_by_rows(fa, fb);
        assert(row_population(a[a.len() - 1]) == row_population(b[a.len() - 1]));
    }
}

/// A board laid into a larger dead board keeps its live cells: the larger
/// board is a rectangle with as many of them.
pub proof fn lemma_embedded_population(board: Board, width: nat, height: nat)
    requires
        board.wf(),
        board.width <= width,
        board.height <= height,
    ensures
        board.embedded(width, height).wf(),
        board.embedded(width, height).population() == board.population(),
{
    let larger = board.embedded(width, height);
    let dx = (width - board.width) / 2;
    let dy = (height - board.height) / 2;
    let top = larger.rows.take(dy);
    let middle = larger.rows.subrange(dy, dy + board.height);
    let bottom = larger.rows.skip(dy + board.height);
    assert(larger.rows =~= top + middle + bottom);
    lemma_population_concat(top, middle);
    lemma_population_concat(top + middle, bottom);
    assert forall|y: int| 0 <= y < top.len() implies row_population(#[trigger] top[y]) == 0 by {
        lemma_row_population_bounds(top[y]);
    }
    lemma_population_zero(top);
    assert forall|y: int| 0 <= y < bottom.len() implies row_population(#[trigger] bottom[y])
        == 0 by {
        lemma_row_population_bounds(bottom[y]);
    }
    lemma_population_zero(bottom);
    assert forall|y: int| 0 <= y < middle.len() implies row_population(#[trigger] middle[y])
        == row_population(board.rows[y]) by {
        assert(middle[y] == larger.rows[y + dy]);
        assert forall|x: int| 0 <= x < middle[y].len() implies #[trigger] middle[y][x] == (dx
            <= x < dx + board.rows[y].len() && board.rows[y][x - dx]) by {
            assert(board.in_bounds(x - dx, y) <==> dx <= x < dx + board.width);
        }
        lemma_row_population_padded(board.rows[y], middle[y], dx);
    }
    lemma_population_by_rows(middle, board.rows);
}

} // verus!
