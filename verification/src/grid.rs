//! The cells as they are stored: a vector of rows. What is proved of it is
//! stated over the rows as sequences.

use vstd::prelude::*;
use crate::board::{
    lemma_population_step, lemma_row_population_step, population, row_population, rule, Board,
};

verus! {

/// The rows that a stored grid holds.
pub open spec fn rows_of(grid: &Vec<Vec<bool>>) -> Seq<Seq<bool>> {
    Seq::new(grid@.len(), |y: int| grid@[y]@)
}

/// Each stored row has `width` cells.
pub open spec fn rectangular(grid: &Vec<Vec<bool>>, width: nat) -> bool {
    forall|y: int| 0 <= y < grid@.len() ==> (#[trigger] grid@[y])@.len() == width
}

/// Row `y + 1` of a rectangle of `height` rows begins where row `y` ends,
/// and ends inside the rectangle.
pub proof fn lemma_row_offset(width: nat, y: nat, height: nat)
    requires
        y < height,
    ensures
        width * y + width == width * (y + 1),
        width * (y + 1) <= width * height,
{
    assert(width * y + width == width * (y + 1)) by (nonlinear_arith);
    assert(width * (y + 1) <= width * height) by (nonlinear_arith)
        requires
            y + 1 <= height,
    ;
}

/// A rectangle inside another has no more cells.
pub proof fn lemma_area_bound(width: nat, height: nat, max_width: nat, max_height: nat)
    requires
        width <= max_width,
        height <= max_height,
    ensures
        width * height <= max_width * max_height,
{
    assert(width * height <= max_width * max_height) by (nonlinear_arith)
        requires
            width <= max_width,
            height <= max_height,
    ;
}

/// On a ring of `n` places, the places before and after place `i`.
pub proof fn lemma_wrap(i: int, n: int)
    requires
        0 <= i < n,
    ensures
        i % n == i,
        (i - 1) % n == if i == 0 {
            n - 1
        } else {
            i - 1
        },
        (i + 1) % n == if i + 1 == n {
            0
        } else {
            i + 1
        },
{
    vstd::arithmetic::div_mod::lemma_small_mod(i as nat, n as nat);
    if i == 0 {
        vstd::arithmetic::div_mod::lemma_mod_add_multiples_vanish(-1, n);
        vstd::arithmetic::div_mod::lemma_small_mod((n - 1) as nat, n as nat);
    } else {
        vstd::arithmetic::div_mod::lemma_small_mod((i - 1) as nat, n as nat);
    }
    if i + 1 == n {
        vstd::arithmetic::div_mod::lemma_mod_add_multiples_vanish(0, n);
        vstd::arithmetic::div_mod::lemma_small_mod(0, n as nat);
    } else {
        vstd::arithmetic::div_mod::lemma_small_mod((i + 1) as nat, n as nat);
    }
}

/// The place before `i` on a ring of `n` places.
pub fn wrap_before(i: usize, n: usize) -> (j: usize)
    requires
        i < n,
    ensures
        j == (i - 1) % (n as int),
        j < n,
{
    proof {
        lemma_wrap(i as int, n as int);
    }
    if i == 0 {
        n - 1
    } else {
        i - 1
    }
}

/// The place after `i` on a ring of `n` places.
pub fn wrap_after(i: usize, n: usize) -> (j: usize)
    requires
        i < n,
    ensures
        j == (i + 1) % (n as int),
        j < n,
{
    proof {
        lemma_wrap(i as int, n as int);
    }
    if i + 1 == n {
        0
    } else {
        i + 1
    }
}

/// Two thirds of `n`, rounded down.
pub fn two_thirds(n: usize) -> (m: usize)
    ensures
        m == 2 * n / 3,
        n / 3 <= m <= n,
{
    let third = n / 3;
    if n % 3 == 2 {
        2 * third + 1
    } else {
        2 * third
    }
}

/// The transition rule for one cell.
pub fn next_state(alive: bool, neighbors: usize) -> (next: bool)
    ensures
        next == rule(alive, neighbors as nat),
{
    if alive {
        neighbors == 2 || neighbors == 3
    } else {
        neighbors == 3
    }
}

/// A grid of `height` rows of `width` dead cells.
pub fn dead_grid(width: usize, height: usize) -> (grid: Vec<Vec<bool>>)
    ensures
        grid@.len() == height,
        rectangular(&grid, width as nat),
        forall|x: int, y: int| 0 <= x < width && 0 <= y < height ==> !(#[trigger] grid@[y]@[x]),
        rows_of(&grid) == Board::dead(width as nat, height as nat).rows,
{
    let grid = vec![vec![false; width]; height];
    let ghost dead = Board::dead(width as nat, height as nat).rows;
    assert forall|y: int| 0 <= y < height implies (#[trigger] rows_of(&grid)[y]) == dead[y] by {
        assert(grid@[y]@ =~= dead[y]);
    }
    assert(rows_of(&grid) =~= dead);
    grid
}

/// The number of live cells in a stored row.
pub fn count_row(row: &Vec<bool>) -> (count: usize)
    ensures
        count == row_population(row@),
        count <= row@.len(),
{
    let mut count: usize = 0;
    let mut x: usize = 0;
    while x < row.len()
        invariant
            x <= row@.len(),
            count == row_population(row@.take(x as int)),
            count <= x,
        decreases row@.len() - x,
    {
        proof {
            lemma_row_population_step(row@, x as int);
        }
        if row[x] {
            count += 1;
        }
        x += 1;
    }
    assert(row@.take(x as int) =~= row@);
    count
}

/// The number of live cells in a stored grid.
pub fn count_living(grid: &Vec<Vec<bool>>, width: usize) -> (count: usize)
    requires
        rectangular(grid, width as nat),
        width * grid@.len() <= usize::MAX,
    ensures
        count == population(rows_of(grid)),
{
    let mut count: usize = 0;
    let mut y: usize = 0;
    while y < grid.len()
        invariant
            y <= grid@.len(),
            rectangular(grid, width as nat),
            width * grid@.len() <= usize::MAX,
            count == population(rows_of(grid).take(y as int)),
            count <= width * y,
        decreases grid@.len() - y,
    {
        proof {
            lemma_population_step(rows_of(grid), y as int);
            lemma_row_offset(width as nat, y as nat, grid@.len());
        }
        let in_row = count_row(&grid[y]);
        count += in_row;
        y += 1;
    }
    assert(rows_of(grid).take(y as int) =~= rows_of(grid));
    count
}

} // verus!
