//! The game as it runs: the stored board with its flags and counters, and
//! the operations on it. Each operation states what it makes of the game's
//! model, the `Universe` that the view gives.

use vstd::prelude::*;
use crate::board::{lemma_board_eq, lemma_population_step, population, row_population, Board};
use crate::config::{Config, Density, INITIAL_SPEED};
use crate::grid::{
    count_living, dead_grid, lemma_area_bound, lemma_row_offset, lemma_wrap, next_state,
    rectangular, rows_of, two_thirds, wrap_after, wrap_before,
};
use crate::random::draw;
use crate::patterns::{glider, glider_gun, pulsar, pulsar_bars, r_pentomino, spaceship};
use crate::universe::Universe;

verus! {

/// A game of life: the board, whether it runs and grows, and its statistics.
pub struct GameState {
    grid: Vec<Vec<bool>>,
    grid_width: usize,
    grid_height: usize,
    config: Config,
    running: bool,
    speed: u64,
    update_counter: u64,
    auto_grow: bool,
    generation_count: u64,
    living_cells: usize,
    cell_births: u64,
    cell_deaths: u64,
}

impl View for GameState {
    type V = Universe;

    closed spec fn view(&self) -> Universe {
        Universe {
            board: Board {
                width: self.grid_width as nat,
                height: self.grid_height as nat,
                rows: rows_of(&self.grid),
            },
            config: self.config,
            running: self.running,
            speed: self.speed,
            auto_grow: self.auto_grow,
            update_counter: self.update_counter as nat,
            generation_count: self.generation_count as nat,
            living_cells: self.living_cells as nat,
            cell_births: self.cell_births as nat,
            cell_deaths: self.cell_deaths as nat,
        }
    }
}

impl GameState {
    /// The game is well formed: its board is a rectangle within the
    /// configured maximum, and `living_cells` is the number of live cells.
    pub open spec fn wf(&self) -> bool {
        self@.wf()
    }

    /// The stored grid is the rectangle that the model describes, within the
    /// configured maximum, with no more cells than a `usize` can count.
    proof fn lemma_stored(&self)
        requires
            self@.shaped(),
        ensures
            self.grid@.len() == self.grid_height,
            rectangular(&self.grid, self.grid_width as nat),
            self.grid_width * self.grid_height <= usize::MAX,
            self.grid_width <= self.config.max_width,
            self.grid_height <= self.config.max_height,
    {
        assert forall|y: int| 0 <= y < self.grid@.len() implies (#[trigger] self.grid@[y])@.len()
            == self.grid_width by {
            assert(self@.board.rows[y] == self.grid@[y]@);
        }
        lemma_area_bound(
            self.grid_width as nat,
            self.grid_height as nat,
            self.config.max_width as nat,
            self.config.max_height as nat,
        );
    }

    /// A game with the given configuration: a dead board of the initial
    /// size, paused, with automatic growth switched on. There is none where
    /// the configuration is not valid.
    pub fn with_config(config: Config) -> (state: Option<GameState>)
        ensures
            state.is_some() <==> config.wf(),
            state matches Some(s) ==> s.wf() && s@ == Universe::initial(config, INITIAL_SPEED),
    {
        if !config.is_valid() {
            return None;
        }
        let grid = dead_grid(config.initial_width, config.initial_height);
        let state = GameState {
            grid,
            grid_width: config.initial_width,
            grid_height: config.initial_height,
            config,
            running: false,
            speed: INITIAL_SPEED,
            update_counter: 0,
            auto_grow: true,
            generation_count: 0,
            living_cells: 0,
            cell_births: 0,
            cell_deaths: 0,
        };
        proof {
            crate::board::lemma_board_population_zero(state@.board);
        }
        Some(state)
    }

    /// A game with the default configuration.
    pub fn new() -> (state: GameState)
        ensures
            state.wf(),
            state@ == Universe::initial(Config::standard(), INITIAL_SPEED),
    {
        let config = Config::default();
        let grid = dead_grid(config.initial_width, config.initial_height);
        let state = GameState {
            grid,
            grid_width: config.initial_width,
            grid_height: config.initial_height,
            config,
            running: false,
            speed: INITIAL_SPEED,
            update_counter: 0,
            auto_grow: true,
            generation_count: 0,
            living_cells: 0,
            cell_births: 0,
            cell_deaths: 0,
        };
        proof {
            crate::board::lemma_board_population_zero(state@.board);
        }
        state
    }

    /// Counts the live cells anew and stores their number.
    pub fn update_statistics(&mut self)
        requires
            old(self)@.shaped(),
        ensures
            final(self)@ == old(self)@.recounted(),
            final(self).wf(),
    {
        proof {
            self.lemma_stored();
        }
        self.living_cells = count_living(&self.grid, self.grid_width);
    }

    /// The number of live cells among the eight neighbours of cell `(x, y)`,
    /// the board's edges joined to a torus.
    pub fn count_alive_neighbors(&self, x: usize, y: usize) -> (count: usize)
        requires
            self@.shaped(),
            self@.board.in_bounds(x as int, y as int),
        ensures
            count == self@.board.neighbor_count(x as int, y as int),
            count <= 8,
    {
        proof {
            self.lemma_stored();
            lemma_wrap(x as int, self.grid_width as int);
            lemma_wrap(y as int, self.grid_height as int);
        }
        let left = wrap_before(x, self.grid_width);
        let right = wrap_after(x, self.grid_width);
        let above = wrap_before(y, self.grid_height);
        let below = wrap_after(y, self.grid_height);
        let mut count: usize = 0;
        if self.grid[above][left] {
            count += 1;
        }
        if self.grid[above][x] {
            count += 1;
        }
        if self.grid[above][right] {
            count += 1;
        }
        if self.grid[y][left] {
            count += 1;
        }
        if self.grid[y][right] {
            count += 1;
        }
        if self.grid[below][left] {
            count += 1;
        }
        if self.grid[below][x] {
            count += 1;
        }
        if self.grid[below][right] {
            count += 1;
        }
        count
    }

    /// Row `y` of the next generation, with the numbers of cells in it that
    /// come alive and that die.
    fn evolve_row(&self, y: usize) -> (out: (Vec<bool>, usize, usize))
        requires
            self@.shaped(),
            y < self@.board.height,
        ensures
            out.0@ == self@.board.next().rows[y as int],
            out.1 == row_population(self@.board.born().rows[y as int]),
            out.2 == row_population(self@.board.died().rows[y as int]),
            out.1 <= self@.board.width,
            out.2 <= self@.board.width,
    {
        proof {
            self.lemma_stored();
        }
        let ghost next = self@.board.next().rows[y as int];
        let ghost born = self@.board.born().rows[y as int];
        let ghost died = self@.board.died().rows[y as int];
        let mut row: Vec<bool> = Vec::with_capacity(self.grid_width);
        let mut births: usize = 0;
        let mut deaths: usize = 0;
        let mut x: usize = 0;
        while x < self.grid_width
            invariant
                self@.shaped(),
                y < self.grid_height,
                self.grid@.len() == self.grid_height,
                rectangular(&self.grid, self.grid_width as nat),
                next == self@.board.next().rows[y as int],
                born == self@.board.born().rows[y as int],
                died == self@.board.died().rows[y as int],
                x <= self.grid_width,
                row@ == next.take(x as int),
                births == row_population(born.take(x as int)),
                deaths == row_population(died.take(x as int)),
                births <= x,
                deaths <= x,
            decreases self.grid_width - x,
        {
            let neighbors = self.count_alive_neighbors(x, y);
            let alive = self.grid[y][x];
            let next_alive = next_state(alive, neighbors);
            proof {
                crate::board::lemma_row_population_step(born, x as int);
                crate::board::lemma_row_population_step(died, x as int);
                assert(self@.board.alive(x as int, y as int) == alive);
                assert(next[x as int] == next_alive);
                assert(born[x as int] == (!alive && next_alive));
                assert(died[x as int] == (alive && !next_alive));
            }
            if alive && !next_alive {
                deaths += 1;
            }
            if !alive && next_alive {
                births += 1;
            }
            row.push(next_alive);
            assert(row@ =~= next.take(x + 1));
            x += 1;
        }
        assert(next.take(x as int) =~= next);
        assert(born.take(x as int) =~= born);
        assert(died.take(x as int) =~= died);
        (row, births, deaths)
    }

    /// The next generation, every cell judged against the present board,
    /// with the numbers of cells that come alive and that die.
    fn evolve(&self) -> (out: (Vec<Vec<bool>>, usize, usize))
        requires
            self@.shaped(),
        ensures
            out.0@.len() == self@.board.height,
            rectangular(&out.0, self@.board.width),
            rows_of(&out.0) == self@.board.next().rows,
            out.1 == self@.board.births(),
            out.2 == self@.board.deaths(),
    {
        proof {
            self.lemma_stored();
        }
        let ghost next = self@.board.next().rows;
        let ghost born = self@.board.born().rows;
        let ghost died = self@.board.died().rows;
        let mut grid: Vec<Vec<bool>> = Vec::with_capacity(self.grid_height);
        let mut births: usize = 0;
        let mut deaths: usize = 0;
        let mut y: usize = 0;
        while y < self.grid_height
            invariant
                self@.shaped(),
                self.grid_width * self.grid_height <= usize::MAX,
                next == self@.board.next().rows,
                born == self@.board.born().rows,
                died == self@.board.died().rows,
                y <= self.grid_height,
                grid@.len() == y,
                forall|j: int| 0 <= j < y ==> (#[trigger] grid@[j])@ == next[j],
                births == population(born.take(y as int)),
                deaths == population(died.take(y as int)),
                births <= self.grid_width * y,
                deaths <= self.grid_width * y,
            decreases self.grid_height - y,
        {
            let (row, row_births, row_deaths) = self.evolve_row(y);
            proof {
                lemma_population_step(born, y as int);
                lemma_population_step(died, y as int);
                lemma_row_offset(self.grid_width as nat, y as nat, self.grid_height as nat);
            }
            grid.push(row);
            births += row_births;
            deaths += row_deaths;
            y += 1;
        }
        assert(born.take(y as int) =~= born);
        assert(died.take(y as int) =~= died);
        assert(rows_of(&grid) =~= next);
        assert forall|j: int| 0 <= j < grid@.len() implies (#[trigger] grid@[j])@.len()
            == self.grid_width by {
            assert(grid@[j]@ == next[j]);
        }
        (grid, births, deaths)
    }

    /// One step. A paused game does not move. A running game moves on by one
    /// generation: every cell is judged against the board as it was, the
    /// generation and the births and deaths in it are counted, the live
    /// cells are counted anew, and then the board grows where automatic
    /// growth is due.
    pub fn step(&mut self)
        requires
            old(self).wf(),
            old(self)@.can_step(),
        ensures
            final(self).wf(),
            final(self)@ == old(self)@.stepped(),
    {
        if !self.running {
            return ;
        }
        let (grid, births, deaths) = self.evolve();
        self.grid = grid;
        self.update_counter += 1;
        self.generation_count += 1;
        self.cell_births += births as u64;
        self.cell_deaths += deaths as u64;
        assert(self@.board == old(self)@.board.next());
        self.update_statistics();
        assert(self@ == old(self)@.advanced());
        if self.auto_grow && self.config.growth_interval != 0 && self.update_counter
            % self.config.growth_interval == 0 {
            self.grow_universe();
        }
    }

    /// Grows the board by the configured amount on each axis, as far as the
    /// maximum allows, and lays the old board into the middle of the new
    /// one. A board that has reached its maximum on either axis stays as it
    /// is. Flags and counters are not touched.
    pub fn grow_universe(&mut self)
        requires
            old(self).wf(),
        ensures
            final(self).wf(),
            final(self)@ == old(self)@.grown(),
    {
        proof {
            self.lemma_stored();
        }
        if self.grid_width >= self.config.max_width || self.grid_height >= self.config.max_height {
            return ;
        }
        let new_width = if self.config.growth_amount <= self.config.max_width - self.grid_width {
            self.grid_width + self.config.growth_amount
        } else {
            self.config.max_width
        };
        let new_height = if self.config.growth_amount <= self.config.max_height
            - self.grid_height {
            self.grid_height + self.config.growth_amount
        } else {
            self.config.max_height
        };
        let x_offset = (new_width - self.grid_width) / 2;
        let y_offset = (new_height - self.grid_height) / 2;
        let mut new_grid = dead_grid(new_width, new_height);
        let ghost target = old(self)@.board.embedded(new_width as nat, new_height as nat);
        let mut y: usize = 0;
        while y < self.grid_height
            invariant
                *self == *old(self),
                self@.shaped(),
                self.grid@.len() == self.grid_height,
                rectangular(&self.grid, self.grid_width as nat),
                self.grid_width <= new_width,
                self.grid_height <= new_height,
                x_offset == (new_width - self.grid_width) / 2,
                y_offset == (new_height - self.grid_height) / 2,
                y <= self.grid_height,
                new_grid@.len() == new_height,
                rectangular(&new_grid, new_width as nat),
                target == self@.board.embedded(new_width as nat, new_height as nat),
                forall|cx: int, cy: int|
                    0 <= cx < new_width && 0 <= cy < new_height ==> #[trigger] new_grid@[cy]@[cx]
                        == (cy < y + y_offset && target.alive(cx, cy)),
            decreases self.grid_height - y,
        {
            let mut x: usize = 0;
            while x < self.grid_width
                invariant
                    *self == *old(self),
                    self@.shaped(),
                    self.grid@.len() == self.grid_height,
                    rectangular(&self.grid, self.grid_width as nat),
                    self.grid_width <= new_width,
                    self.grid_height <= new_height,
                    x_offset == (new_width - self.grid_width) / 2,
                    y_offset == (new_height - self.grid_height) / 2,
                    y < self.grid_height,
                    x <= self.grid_width,
                    new_grid@.len() == new_height,
                    rectangular(&new_grid, new_width as nat),
                    target == self@.board.embedded(new_width as nat, new_height as nat),
                    forall|cx: int, cy: int|
                        0 <= cx < new_width && 0 <= cy < new_height
                            ==> #[trigger] new_grid@[cy]@[cx] == ((cy < y + y_offset || (cy == y
                            + y_offset && cx < x + x_offset)) && target.alive(cx, cy)),
                decreases self.grid_width - x,
            {
                let alive = self.grid[y][x];
                new_grid[y + y_offset][x + x_offset] = alive;
                assert(self@.board.alive(x as int, y as int) == alive);
                x += 1;
            }
            y += 1;
        }
        self.grid = new_grid;
        self.grid_width = new_width;
        self.grid_height = new_height;
        proof {
            assert(self@.board.wf());
            assert(target.wf());
            lemma_board_eq(self@.board, target);
            crate::board::lemma_embedded_population(
                old(self)@.board,
                new_width as nat,
                new_height as nat,
            );
        }
    }

    /// Kills every cell and sets the counters back to zero. The board keeps
    /// its size, and the flags stay as they are.
    pub fn clear(&mut self)
        requires
            old(self).wf(),
        ensures
            final(self).wf(),
            final(self)@ == old(self)@.cleared(),
    {
        proof {
            self.lemma_stored();
        }
        let mut y: usize = 0;
        while y < self.grid_height
            invariant
                self.grid@.len() == self.grid_height,
                rectangular(&self.grid, self.grid_width as nat),
                y <= self.grid_height,
                self.grid_width == old(self).grid_width,
                self.grid_height == old(self).grid_height,
                self.config == old(self).config,
                self.running == old(self).running,
                self.speed == old(self).speed,
                self.auto_grow == old(self).auto_grow,
                forall|cx: int, cy: int|
                    0 <= cx < self.grid_width && 0 <= cy < y ==> !(#[trigger] self.grid@[cy]@[cx]),
            decreases self.grid_height - y,
        {
            let mut x: usize = 0;
            while x < self.grid_width
                invariant
                    self.grid@.len() == self.grid_height,
                    rectangular(&self.grid, self.grid_width as nat),
                    y < self.grid_height,
                    x <= self.grid_width,
                    self.grid_width == old(self).grid_width,
                    self.grid_height == old(self).grid_height,
                    self.config == old(self).config,
                    self.running == old(self).running,
                    self.speed == old(self).speed,
                    self.auto_grow == old(self).auto_grow,
                    forall|cx: int, cy: int|
                        0 <= cx < self.grid_width && 0 <= cy < self.grid_height && (cy < y || (cy
                            == y && cx < x)) ==> !(#[trigger] self.grid@[cy]@[cx]),
                decreases self.grid_width - x,
            {
                self.grid[y][x] = false;
                x += 1;
            }
            y += 1;
        }
        self.update_counter = 0;
        self.generation_count = 0;
        self.cell_births = 0;
        self.cell_deaths = 0;
        self.living_cells = 0;
        proof {
            let dead = Board::dead(self.grid_width as nat, self.grid_height as nat);
            assert(self@.board.wf());
            lemma_board_eq(self@.board, dead);
            crate::board::lemma_board_population_zero(dead);
        }
    }

    /// Flips cell `(x, y)` and counts the flip as a birth or as a death.
    /// Outside the board nothing happens.
    pub fn toggle_cell(&mut self, x: usize, y: usize)
        requires
            old(self).wf(),
            old(self)@.can_toggle(x as int, y as int),
        ensures
            final(self).wf(),
            final(self)@ == old(self)@.toggled(x as int, y as int),
    {
        proof {
            self.lemma_stored();
        }
        if x < self.grid_width && y < self.grid_height {
            let alive = !self.grid[y][x];
            proof {
                crate::board::lemma_with_cell_population(self@.board, x as int, y as int, alive);
                crate::board::lemma_population_bound(self@.board.rows, self@.board.width);
                crate::board::lemma_population_bound(
                    self@.board.with_cell(x as int, y as int, alive).rows,
                    self@.board.width,
                );
            }
            self.grid[y][x] = alive;
            assert(self@.board.rows =~= old(self)@.board.with_cell(x as int, y as int, alive).rows);
            if alive {
                self.living_cells += 1;
                self.cell_births += 1;
            } else {
                self.living_cells -= 1;
                self.cell_deaths += 1;
            }
        }
    }

    /// Sets cell `(x, y)` and keeps `living_cells` the number of live cells.
    /// Births and deaths are not counted. Outside the board nothing happens.
    pub fn set_cell(&mut self, x: usize, y: usize, alive: bool)
        requires
            old(self).wf(),
        ensures
            final(self).wf(),
            final(self)@ == old(self)@.with_cell(x as int, y as int, alive),
    {
        proof {
            self.lemma_stored();
        }
        if x < self.grid_width && y < self.grid_height {
            let was = self.grid[y][x];
            proof {
                crate::board::lemma_with_cell_population(self@.board, x as int, y as int, alive);
                crate::board::lemma_population_bound(
                    self@.board.with_cell(x as int, y as int, alive).rows,
                    self@.board.width,
                );
            }
            self.grid[y][x] = alive;
            assert(self@.board.rows =~= old(self)@.board.with_cell(x as int, y as int, alive).rows);
            if alive && !was {
                self.living_cells += 1;
            }
            if !alive && was {
                self.living_cells -= 1;
            }
        }
    }

    /// The state of cell `(x, y)`, where the board has such a cell.
    pub fn cell(&self, x: usize, y: usize) -> (state: Option<bool>)
        requires
            self.wf(),
        ensures
            state == if self@.board.in_bounds(x as int, y as int) {
                Some(self@.board.alive(x as int, y as int))
            } else {
                None
            },
    {
        proof {
            self.lemma_stored();
        }
        if x < self.grid_width && y < self.grid_height {
            Some(self.grid[y][x])
        } else {
            None
        }
    }

    /// The number of columns.
    pub fn width(&self) -> (width: usize)
        ensures
            width == self@.board.width,
    {
        self.grid_width
    }

    /// The number of rows.
    pub fn height(&self) -> (height: usize)
        ensures
            height == self@.board.height,
    {
        self.grid_height
    }

    /// The configuration that the game was created with.
    pub fn config(&self) -> (config: Config)
        ensures
            config == self@.config,
    {
        self.config
    }

    /// Whether stepping is switched on.
    pub fn running(&self) -> (running: bool)
        ensures
            running == self@.running,
    {
        self.running
    }

    /// Whether the board grows by itself as generations pass.
    pub fn auto_grow(&self) -> (auto_grow: bool)
        ensures
            auto_grow == self@.auto_grow,
    {
        self.auto_grow
    }

    /// The step cadence.
    pub fn speed(&self) -> (speed: u64)
        ensures
            speed == self@.speed,
    {
        self.speed
    }

    /// The number of generations since the last clear.
    pub fn generation_count(&self) -> (count: u64)
        ensures
            count == self@.generation_count,
    {
        self.generation_count
    }

    /// The number of live cells.
    pub fn living_cells(&self) -> (count: usize)
        ensures
            count == self@.living_cells,
    {
        self.living_cells
    }

    /// The number of births since the last clear.
    pub fn cell_births(&self) -> (count: u64)
        ensures
            count == self@.cell_births,
    {
        self.cell_births
    }

    /// The number of deaths since the last clear.
    pub fn cell_deaths(&self) -> (count: u64)
        ensures
            count == self@.cell_deaths,
    {
        self.cell_deaths
    }

    /// Switches stepping on or off.
    pub fn set_running(&mut self, running: bool)
        ensures
            final(self)@ == (Universe { running, ..old(self)@ }),
    {
        self.running = running;
    }

    /// Switches automatic growth on or off.
    pub fn set_auto_grow(&mut self, auto_grow: bool)
        ensures
            final(self)@ == (Universe { auto_grow, ..old(self)@ }),
    {
        self.auto_grow = auto_grow;
    }

    /// Stores the step cadence.
    pub fn set_speed(&mut self, speed: u64)
        ensures
            final(self)@ == (Universe { speed, ..old(self)@ }),
    {
        self.speed = speed;
    }

    /// Whether the counters have room for whatever one step or one flip can
    /// add to them.
    pub fn has_headroom(&self) -> (ok: bool)
        requires
            self.wf(),
        ensures
            ok == self@.has_headroom(),
    {
        proof {
            self.lemma_stored();
        }
        let cells = (self.grid_width * self.grid_height) as u64;
        self.update_counter < u64::MAX && self.generation_count < u64::MAX && self.cell_births
            <= u64::MAX - cells && self.cell_deaths <= u64::MAX - cells
    }

    /// Makes cell `(x, y)` alive.
    fn mark(&mut self, x: usize, y: usize)
        requires
            old(self)@.shaped(),
            old(self)@.board.in_bounds(x as int, y as int),
        ensures
            final(self)@.shaped(),
            final(self)@ == (Universe {
                board: old(self)@.board.with_cell(x as int, y as int, true),
                ..old(self)@
            }),
    {
        proof {
            self.lemma_stored();
        }
        self.grid[y][x] = true;
        assert(self@.board.rows =~= old(self)@.board.with_cell(x as int, y as int, true).rows);
    }

    /// Whether a box of the given size, with its corner at `(x, y)`, lies on
    /// the board.
    fn box_fits(&self, x: usize, y: usize, width: usize, height: usize) -> (fits: bool)
        ensures
            fits == (x + width <= self@.board.width && y + height <= self@.board.height),
    {
        width <= self.grid_width && x <= self.grid_width - width && height <= self.grid_height
            && y <= self.grid_height - height
    }

    /// Stamps a glider gun with its corner at `(x, y)` and counts the live
    /// cells anew. Where the gun's box of 37 by 10 cells does not lie on the
    /// board nothing changes.
    pub fn add_glider_gun(&mut self, x: usize, y: usize)
        requires
            old(self).wf(),
        ensures
            final(self).wf(),
            final(self)@ == old(self)@.stamped(glider_gun(), x as int, y as int),
    {
        if self.box_fits(x, y, 37, 10) {
            // The block at the left.
            self.mark(x, y + 4);
            self.mark(x + 1, y + 4);
            self.mark(x, y + 5);
            self.mark(x + 1, y + 5);
            // The body.
            self.mark(x + 12, y + 2);
            self.mark(x + 13, y + 2);
            self.mark(x + 11, y + 3);
            self.mark(x + 15, y + 3);
            self.mark(x + 10, y + 4);
            self.mark(x + 16, y + 4);
            self.mark(x + 10, y + 5);
            self.mark(x + 14, y + 5);
            self.mark(x + 16, y + 5);
            self.mark(x + 17, y + 5);
            self.mark(x + 10, y + 6);
            self.mark(x + 16, y + 6);
            self.mark(x + 11, y + 7);
            self.mark(x + 15, y + 7);
            self.mark(x + 12, y + 8);
            self.mark(x + 13, y + 8);
            // The block at the right.
            self.mark(x + 24, y + 2);
            self.mark(x + 25, y + 2);
            self.mark(x + 24, y + 3);
            self.mark(x + 25, y + 3);
            proof {
                lemma_board_eq(
                    self@.board,
                    old(self)@.board.stamped(glider_gun().cells, x as int, y as int),
                );
            }
        }
        self.update_statistics();
    }

    /// Stamps a glider with its corner at `(x, y)` and counts the live cells
    /// anew. Where the glider's box of 3 by 3 cells does not lie on the
    /// board nothing changes.
    pub fn add_glider(&mut self, x: usize, y: usize)
        requires
            old(self).wf(),
        ensures
            final(self).wf(),
            final(self)@ == old(self)@.stamped(glider(), x as int, y as int),
    {
        if self.box_fits(x, y, 3, 3) {
            self.mark(x + 1, y);
            self.mark(x + 2, y + 1);
            self.mark(x, y + 2);
            self.mark(x + 1, y + 2);
            self.mark(x + 2, y + 2);
            proof {
                lemma_board_eq(
                    self@.board,
                    old(self)@.board.stamped(glider().cells, x as int, y as int),
                );
            }
        }
        self.update_statistics();
    }

    /// Stamps a spaceship with its corner at `(x, y)` and counts the live
    /// cells anew. Where the spaceship's box of 5 by 4 cells does not lie on
    /// the board nothing changes.
    pub fn add_spaceship(&mut self, x: usize, y: usize)
        requires
            old(self).wf(),
        ensures
            final(self).wf(),
            final(self)@ == old(self)@.stamped(spaceship(), x as int, y as int),
    {
        if self.box_fits(x, y, 5, 4) {
            self.mark(x + 1, y);
            self.mark(x + 4, y);
            self.mark(x, y + 1);
            self.mark(x, y + 2);
            self.mark(x + 4, y + 2);
            self.mark(x, y + 3);
            self.mark(x + 1, y + 3);
            self.mark(x + 2, y + 3);
            self.mark(x + 3, y + 3);
            proof {
                lemma_board_eq(
                    self@.board,
                    old(self)@.board.stamped(spaceship().cells, x as int, y as int),
                );
            }
        }
        self.update_statistics();
    }

    /// Stamps an R-pentomino with its corner at `(x, y)` and counts the live
    /// cells anew. Where the pentomino's box of 3 by 3 cells does not lie on
    /// the board nothing changes.
    pub fn add_r_pentomino(&mut self, x: usize, y: usize)
        requires
            old(self).wf(),
        ensures
            final(self).wf(),
            final(self)@ == old(self)@.stamped(r_pentomino(), x as int, y as int),
    {
        if self.box_fits(x, y, 3, 3) {
            self.mark(x + 1, y);
            self.mark(x + 2, y);
            self.mark(x, y + 1);
            self.mark(x + 1, y + 1);
            self.mark(x + 1, y + 2);
            proof {
                lemma_board_eq(
                    self@.board,
                    old(self)@.board.stamped(r_pentomino().cells, x as int, y as int),
                );
            }
        }
        self.update_statistics();
    }

    /// Stamps the two bars of a pulsar that lie along one rail, the pulsar's
    /// corner at `(x, y)`.
    fn mark_bars(&mut self, x: usize, y: usize, rail: usize, across: bool)
        requires
            old(self)@.shaped(),
            x + 13 <= old(self)@.board.width,
            y + 13 <= old(self)@.board.height,
            rail <= 12,
        ensures
            final(self)@.shaped(),
            final(self)@ == (Universe {
                board: old(self)@.board.stamped(
                    pulsar_bars(rail as int, across),
                    x as int,
                    y as int,
                ),
                ..old(self)@
            }),
    {
        if across {
            self.mark(x + 2, y + rail);
            self.mark(x + 3, y + rail);
            self.mark(x + 4, y + rail);
            self.mark(x + 8, y + rail);
            self.mark(x + 9, y + rail);
            self.mark(x + 10, y + rail);
        } else {
            self.mark(x + rail, y + 2);
            self.mark(x + rail, y + 3);
            self.mark(x + rail, y + 4);
            self.mark(x + rail, y + 8);
            self.mark(x + rail, y + 9);
            self.mark(x + rail, y + 10);
        }
        proof {
            lemma_board_eq(
                self@.board,
                old(self)@.board.stamped(pulsar_bars(rail as int, across), x as int, y as int),
            );
        }
    }

    /// Stamps a pulsar with its corner at `(x, y)` and counts the live cells
    /// anew. Where the pulsar's box of 13 by 13 cells does not lie on the
    /// board nothing changes.
    pub fn add_pulsar(&mut self, x: usize, y: usize)
        requires
            old(self).wf(),
        ensures
            final(self).wf(),
            final(self)@ == old(self)@.stamped(pulsar(), x as int, y as int),
    {
        if self.box_fits(x, y, 13, 13) {
            // The bars that lie across.
            self.mark_bars(x, y, 0, true);
            self.mark_bars(x, y, 5, true);
            self.mark_bars(x, y, 7, true);
            self.mark_bars(x, y, 12, true);
            // The bars that stand upright.
            self.mark_bars(x, y, 0, false);
            self.mark_bars(x, y, 5, false);
            self.mark_bars(x, y, 7, false);
            self.mark_bars(x, y, 12, false);
            proof {
                lemma_board_eq(
                    self@.board,
                    old(self)@.board.stamped(pulsar().cells, x as int, y as int),
                );
            }
        }
        self.update_statistics();
    }

    /// Draws each cell of the columns `x0..x1` in the rows `y0..y1` anew,
    /// alive with the given probability.
    fn fill(&mut self, x0: usize, x1: usize, y0: usize, y1: usize, density: Density)
        requires
            old(self).wf(),
            density.wf(),
            x0 <= x1 <= old(self)@.board.width,
            y0 <= y1 <= old(self)@.board.height,
        ensures
            final(self).wf(),
            final(self)@ == old(self)@.refilled(final(self)@.board),
            final(self)@.board.width == old(self)@.board.width,
            final(self)@.board.height == old(self)@.board.height,
            forall|x: int, y: int|
                old(self)@.board.in_bounds(x, y) && !(x0 <= x < x1 && y0 <= y < y1)
                    ==> #[trigger] final(self)@.board.alive(x, y) == old(self)@.board.alive(x, y),
            density.is_never() ==> forall|x: int, y: int|
                x0 <= x < x1 && y0 <= y < y1 ==> !#[trigger] final(self)@.board.alive(x, y),
            density.is_always() ==> forall|x: int, y: int|
                x0 <= x < x1 && y0 <= y < y1 ==> #[trigger] final(self)@.board.alive(x, y),
    {
        let ghost before = self@;
        let mut rng = rand::thread_rng();
        let mut y: usize = y0;
        while y < y1
            invariant
                self.wf(),
                density.wf(),
                before == old(self)@,
                before.wf(),
                self@ == before.refilled(self@.board),
                self@.board.width == before.board.width,
                self@.board.height == before.board.height,
                x0 <= x1 <= before.board.width,
                y0 <= y <= y1 <= before.board.height,
                forall|cx: int, cy: int|
                    before.board.in_bounds(cx, cy) && !(x0 <= cx < x1 && y0 <= cy < y)
                        ==> #[trigger] self@.board.alive(cx, cy) == before.board.alive(cx, cy),
                density.is_never() ==> forall|cx: int, cy: int|
                    x0 <= cx < x1 && y0 <= cy < y ==> !#[trigger] self@.board.alive(cx, cy),
                density.is_always() ==> forall|cx: int, cy: int|
                    x0 <= cx < x1 && y0 <= cy < y ==> #[trigger] self@.board.alive(cx, cy),
            decreases y1 - y,
        {
            let mut x: usize = x0;
            while x < x1
                invariant
                    self.wf(),
                    density.wf(),
                    before.wf(),
                    self@ == before.refilled(self@.board),
                    self@.board.width == before.board.width,
                    self@.board.height == before.board.height,
                    x0 <= x <= x1 <= before.board.width,
                    y0 <= y < y1 <= before.board.height,
                    forall|cx: int, cy: int|
                        before.board.in_bounds(cx, cy) && !(x0 <= cx < x1 && (y0 <= cy < y || (cy
                            == y && cx < x))) ==> #[trigger] self@.board.alive(cx, cy)
                            == before.board.alive(cx, cy),
                    density.is_never() ==> forall|cx: int, cy: int|
                        x0 <= cx < x1 && (y0 <= cy < y || (cy == y && cx < x))
                            ==> !#[trigger] self@.board.alive(cx, cy),
                    density.is_always() ==> forall|cx: int, cy: int|
                        x0 <= cx < x1 && (y0 <= cy < y || (cy == y && cx < x))
                            ==> #[trigger] self@.board.alive(cx, cy),
                decreases x1 - x,
            {
                let alive = draw(&mut rng, density);
                let ghost prev = self@.board;
                self.set_cell(x, y, alive);
                assert forall|cx: int, cy: int| prev.in_bounds(cx, cy) implies #[trigger] self@.board.alive(
                    cx,
                    cy,
                ) == (if cx == x && cy == y {
                    alive
                } else {
                    prev.alive(cx, cy)
                }) by {
                    assert(prev.rows[cy].len() == prev.width);
                }
                x += 1;
            }
            y += 1;
        }
    }

    /// Draws every cell of the board anew, alive with the given probability,
    /// and counts the live cells anew. The size, the flags and the other
    /// counters stay as they are. With probability zero the board is dead
    /// afterwards, with probability one every cell is alive.
    pub fn randomize(&mut self, density: Density)
        requires
            old(self).wf(),
            density.wf(),
        ensures
            final(self).wf(),
            final(self)@ == old(self)@.refilled(final(self)@.board),
            final(self)@.board.width == old(self)@.board.width,
            final(self)@.board.height == old(self)@.board.height,
            density.is_never() ==> final(self)@.board == Board::dead(
                old(self)@.board.width,
                old(self)@.board.height,
            ),
            density.is_always() ==> forall|x: int, y: int|
                old(self)@.board.in_bounds(x, y) ==> #[trigger] final(self)@.board.alive(x, y),
    {
        let width = self.grid_width;
        let height = self.grid_height;
        self.fill(0, width, 0, height, density);
        self.update_statistics();
        proof {
            if density.is_never() {
                lemma_board_eq(
                    self@.board,
                    Board::dead(old(self)@.board.width, old(self)@.board.height),
                );
            }
        }
    }

    /// Clears the game, draws every cell in the middle third of the board
    /// anew, alive with the given probability, and counts the live cells
    /// anew. Every cell outside the middle is dead afterwards, and the
    /// counters are those of a cleared game. With probability zero the whole
    /// board is dead, with probability one every cell in the middle is
    /// alive.
    pub fn randomize_center(&mut self, density: Density)
        requires
            old(self).wf(),
            density.wf(),
        ensures
            final(self).wf(),
            final(self)@ == old(self)@.cleared().refilled(final(self)@.board),
            final(self)@.board.width == old(self)@.board.width,
            final(self)@.board.height == old(self)@.board.height,
            forall|x: int, y: int|
                old(self)@.board.in_bounds(x, y) && !old(self)@.in_center(x, y)
                    ==> !#[trigger] final(self)@.board.alive(x, y),
            density.is_never() ==> final(self)@.board == Board::dead(
                old(self)@.board.width,
                old(self)@.board.height,
            ),
            density.is_always() ==> forall|x: int, y: int|
                old(self)@.in_center(x, y) ==> #[trigger] final(self)@.board.alive(x, y),
    {
        self.clear();
        let start_x = self.grid_width / 3;
        let end_x = two_thirds(self.grid_width);
        let start_y = self.grid_height / 3;
        let end_y = two_thirds(self.grid_height);
        let ghost cleared = self@;
        self.fill(start_x, end_x, start_y, end_y, density);
        self.update_statistics();
        proof {
            assert forall|x: int, y: int|
                old(self)@.board.in_bounds(x, y) && !old(self)@.in_center(
                    x,
                    y,
                ) implies !#[trigger] self@.board.alive(x, y) by {
                assert(cleared.board.in_bounds(x, y));
                assert(!cleared.board.alive(x, y));
            }
            if density.is_never() {
                assert forall|x: int, y: int| self@.board.in_bounds(x, y) implies !self@.board.alive(
                    x,
                    y,
                ) by {
                    if !old(self)@.in_center(x, y) {
                        assert(cleared.board.in_bounds(x, y));
                        assert(!cleared.board.alive(x, y));
                    }
                }
                lemma_board_eq(
                    self@.board,
                    Board::dead(old(self)@.board.width, old(self)@.board.height),
                );
            }
        }
    }
}

} // verus!
