//! The mathematical model of a game: the board, the flags and the counters,
//! and what each operation makes of them.

use vstd::prelude::*;
use crate::board::Board;
use crate::config::Config;
use crate::patterns::Shape;

verus! {

/// The state of a game.
pub struct Universe {
    pub board: Board,
    pub config: Config,
    /// Whether stepping is switched on.
    pub running: bool,
    /// The step cadence, which the driver reads and the game only stores.
    pub speed: u64,
    /// Whether the board grows by itself as generations pass.
    pub auto_grow: bool,
    /// Generations since the last clear, by which growth falls due.
    pub update_counter: nat,
    /// Generations since the last clear.
    pub generation_count: nat,
    pub living_cells: nat,
    /// Cells that came alive since the last clear, by the rule or by hand.
    pub cell_births: nat,
    /// Cells that died since the last clear, by the rule or by hand.
    pub cell_deaths: nat,
}

impl Universe {
    /// The board is a rectangle within the configured maximum.
    pub open spec fn shaped(self) -> bool {
        &&& self.config.wf()
        &&& self.board.wf()
        &&& self.board.width <= self.config.max_width
        &&& self.board.height <= self.config.max_height
    }

    /// The board is a rectangle within the configured maximum, and
    /// `living_cells` is the number of its live cells.
    pub open spec fn wf(self) -> bool {
        &&& self.shaped()
        &&& self.living_cells == self.board.population()
    }

    /// A new game: a dead board of the initial size, paused, with automatic
    /// growth switched on.
    pub open spec fn initial(config: Config, speed: u64) -> Universe {
        Universe {
            board: Board::dead(config.initial_width as nat, config.initial_height as nat),
            config,
            running: false,
            speed,
            auto_grow: true,
            update_counter: 0,
            generation_count: 0,
            living_cells: 0,
            cell_births: 0,
            cell_deaths: 0,
        }
    }

    /// The game with `living_cells` counted anew.
    pub open spec fn recounted(self) -> Universe {
        Universe { living_cells: self.board.population(), ..self }
    }

    /// The game after a clear: a dead board of the same size, and all
    /// counters at zero.
    pub open spec fn cleared(self) -> Universe {
        Universe {
            board: Board::dead(self.board.width, self.board.height),
            update_counter: 0,
            generation_count: 0,
            living_cells: 0,
            cell_births: 0,
            cell_deaths: 0,
            ..self
        }
    }

    /// The game after cell `(x, y)` was flipped by hand: a birth or a death
    /// like any other. Outside the board nothing changes.
    pub open spec fn toggled(self, x: int, y: int) -> Universe {
        if !self.board.in_bounds(x, y) {
            self
        } else if self.board.alive(x, y) {
            Universe {
                board: self.board.with_cell(x, y, false),
                living_cells: (self.living_cells - 1) as nat,
                cell_deaths: self.cell_deaths + 1,
                ..self
            }
        } else {
            Universe {
                board: self.board.with_cell(x, y, true),
                living_cells: self.living_cells + 1,
                cell_births: self.cell_births + 1,
                ..self
            }
        }
    }

    /// The game with cell `(x, y)` set, and counted in `living_cells` only.
    /// Outside the board nothing changes.
    pub open spec fn with_cell(self, x: int, y: int, alive: bool) -> Universe {
        if self.board.in_bounds(x, y) {
            Universe { board: self.board.with_cell(x, y, alive), ..self }.recounted()
        } else {
            self
        }
    }

    /// The game with another board, counted anew, and all else as it is.
    pub open spec fn refilled(self, board: Board) -> Universe {
        Universe { board, ..self }.recounted()
    }

    /// Whether cell `(x, y)` lies in the middle third of the board on both
    /// axes: from a third of the size, rounded down, up to but without two
    /// thirds of it, rounded down.
    pub open spec fn in_center(self, x: int, y: int) -> bool {
        &&& self.board.width / 3 <= x < 2 * self.board.width / 3
        &&& self.board.height / 3 <= y < 2 * self.board.height / 3
    }

    /// Whether the board is below its maximum on both axes.
    pub open spec fn can_grow(self) -> bool {
        self.board.width < self.config.max_width && self.board.height < self.config.max_height
    }

    /// The width after one growth.
    pub open spec fn grown_width(self) -> nat {
        if self.board.width + self.config.growth_amount <= self.config.max_width {
            (self.board.width + self.config.growth_amount) as nat
        } else {
            self.config.max_width as nat
        }
    }

    /// The height after one growth.
    pub open spec fn grown_height(self) -> nat {
        if self.board.height + self.config.growth_amount <= self.config.max_height {
            (self.board.height + self.config.growth_amount) as nat
        } else {
            self.config.max_height as nat
        }
    }

    /// The game after one growth: the board laid into the middle of a larger
    /// one, and nothing else changed. A board that has reached its maximum
    /// on either axis stays as it is.
    pub open spec fn grown(self) -> Universe {
        if self.can_grow() {
            Universe {
                board: self.board.embedded(self.grown_width(), self.grown_height()),
                ..self
            }
        } else {
            self
        }
    }

    /// Whether automatic growth falls due at this count of generations.
    pub open spec fn growth_due(self) -> bool {
        &&& self.auto_grow
        &&& self.config.growth_interval > 0
        &&& self.update_counter > 0
        &&& self.update_counter % (self.config.growth_interval as nat) == 0
    }

    /// Whether the board stays as large as it is for the next `n` steps:
    /// it has reached its maximum, or automatic growth falls due at none of
    /// them.
    pub open spec fn keeps_size_for(self, n: int) -> bool {
        self.can_grow() ==> forall|k: int|
            1 <= k <= n ==> !(#[trigger] self.after_generations(k)).growth_due()
    }

    /// The game with `k` more generations counted, and nothing else changed.
    pub open spec fn after_generations(self, k: int) -> Universe {
        Universe {
            update_counter: (self.update_counter + k) as nat,
            generation_count: (self.generation_count + k) as nat,
            ..self
        }
    }

    /// The game one generation later, before any growth.
    pub open spec fn advanced(self) -> Universe {
        Universe {
            board: self.board.next(),
            update_counter: self.update_counter + 1,
            generation_count: self.generation_count + 1,
            living_cells: self.board.next().population(),
            cell_births: self.cell_births + self.board.births(),
            cell_deaths: self.cell_deaths + self.board.deaths(),
            ..self
        }
    }

    /// The game after one step. A paused game does not move. A running game
    /// moves on by one generation and then grows, where growth is due.
    pub open spec fn stepped(self) -> Universe {
        if !self.running {
            self
        } else if self.advanced().growth_due() {
            self.advanced().grown()
        } else {
            self.advanced()
        }
    }

    /// The game after a pattern was stamped with its corner at `(x, y)`.
    /// Where the pattern's box does not lie on the board nothing changes.
    pub open spec fn stamped(self, shape: Shape, x: int, y: int) -> Universe {
        if shape.fits(self.board, x, y) {
            Universe { board: self.board.stamped(shape.cells, x, y), ..self }.recounted()
        } else {
            self
        }
    }

    /// The counters have room for one more step.
    pub open spec fn can_step(self) -> bool {
        self.running ==> {
            &&& self.update_counter < u64::MAX
            &&& self.generation_count < u64::MAX
            &&& self.cell_births + self.board.births() <= u64::MAX
            &&& self.cell_deaths + self.board.deaths() <= u64::MAX
        }
    }

    /// The counters have room for flipping cell `(x, y)`.
    pub open spec fn can_toggle(self, x: int, y: int) -> bool {
        self.board.in_bounds(x, y) ==> if self.board.alive(x, y) {
            self.cell_deaths < u64::MAX
        } else {
            self.cell_births < u64::MAX
        }
    }

    /// The counters have room for whatever one step or one flip can add: one
    /// generation, and as many births and deaths as the board has cells.
    pub open spec fn has_headroom(self) -> bool {
        &&& self.update_counter < u64::MAX
        &&& self.generation_count < u64::MAX
        &&& self.cell_births + self.board.width * self.board.height <= u64::MAX
        &&& self.cell_deaths + self.board.width * self.board.height <= u64::MAX
    }
}

} // verus!
