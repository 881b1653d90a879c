//! What a driver configures: the size of the board at the start and at
//! most, the growth policy, and the density of a random fill.

use vstd::prelude::*;

verus! {

/// The width of the board at the start, where nothing else is configured.
pub const INITIAL_GRID_WIDTH: usize = 150;

/// The height of the board at the start, where nothing else is configured.
pub const INITIAL_GRID_HEIGHT: usize = 100;

/// The width beyond which the board does not grow, where nothing else is
/// configured.
pub const MAX_GRID_WIDTH: usize = 5000;

/// The height beyond which the board does not grow, where nothing else is
/// configured.
pub const MAX_GRID_HEIGHT: usize = 3000;

/// The number of generations between two automatic growths, where nothing
/// else is configured.
pub const GROWTH_INTERVAL: u64 = 50;

/// The number of cells that one growth adds to each axis, where nothing else
/// is configured.
pub const GROWTH_AMOUNT: usize = 1;

/// The step cadence of a new game, in milliseconds.
pub const INITIAL_SPEED: u64 = 100;

/// The sizes and the growth policy of one game. They are fixed when the game
/// is created.
#[derive(Clone, Copy, Debug, PartialEq, Eq)]
pub struct Config {
    pub initial_width: usize,
    pub initial_height: usize,
    pub max_width: usize,
    pub max_height: usize,
    /// Automatic growth falls due whenever the number of generations since
    /// the last clear is a positive multiple of this; with 0 it never does.
    pub growth_interval: u64,
    /// What one growth adds to each axis, as far as the maximum allows.
    pub growth_amount: usize,
}

impl Config {
    /// The board starts no larger than it may become, and the largest board
    /// has a number of cells that a `usize` can hold.
    pub open spec fn wf(self) -> bool {
        &&& self.initial_width <= self.max_width
        &&& self.initial_height <= self.max_height
        &&& self.max_width * self.max_height <= usize::MAX
    }

    /// The configuration of a game for which nothing else is asked: a board
    /// of 150 by 100 cells that grows by one cell per axis every 50
    /// generations, up to 5000 by 3000.
    pub open spec fn standard() -> Config {
        Config {
            initial_width: INITIAL_GRID_WIDTH,
            initial_height: INITIAL_GRID_HEIGHT,
            max_width: MAX_GRID_WIDTH,
            max_height: MAX_GRID_HEIGHT,
            growth_interval: GROWTH_INTERVAL,
            growth_amount: GROWTH_AMOUNT,
        }
    }

    /// Whether a game can be created with this configuration.
    pub fn is_valid(&self) -> (ok: bool)
        ensures
            ok == self.wf(),
    {
        self.initial_width <= self.max_width && self.initial_height <= self.max_height
            && self.max_width.checked_mul(self.max_height).is_some()
    }
}

impl Default for Config {
    /// The standard configuration.
    fn default() -> (config: Config)
        ensures
            config.wf(),
            config == Config::standard(),
    {
        Config {
            initial_width: INITIAL_GRID_WIDTH,
            initial_height: INITIAL_GRID_HEIGHT,
            max_width: MAX_GRID_WIDTH,
            max_height: MAX_GRID_HEIGHT,
            growth_interval: GROWTH_INTERVAL,
            growth_amount: GROWTH_AMOUNT,
        }
    }
}

/// The probability with which a random fill makes a cell alive, as a ratio
/// of two integers.
#[derive(Clone, Copy, Debug, PartialEq, Eq)]
pub struct Density {
    pub numerator: u32,
    pub denominator: u32,
}

impl Density {
    /// The ratio is a probability: it has a denominator and is at most one.
    pub open spec fn wf(self) -> bool {
        0 < self.denominator && self.numerator <= self.denominator
    }

    /// Probability zero: no cell comes alive.
    pub open spec fn is_never(self) -> bool {
        self.numerator == 0
    }

    /// Probability one: every cell comes alive.
    pub open spec fn is_always(self) -> bool {
        self.numerator == self.denominator
    }

    /// The density `numerator / denominator`, where that is a probability.
    pub fn new(numerator: u32, denominator: u32) -> (density: Option<Density>)
        ensures
            density.is_some() <==> 0 < denominator && numerator <= denominator,
            density matches Some(d) ==> d.wf() && d.numerator == numerator && d.denominator
                == denominator,
    {
        if 0 < denominator && numerator <= denominator {
            Some(Density { numerator, denominator })
        } else {
            None
        }
    }

    /// One cell in five: the usual density for filling the whole board.
    pub fn default_fill() -> (density: Density)
        ensures
            density.wf(),
            density.numerator == 1,
            density.denominator == 5,
    {
        Density { numerator: 1, denominator: 5 }
    }

    /// Three cells in ten: the usual density for filling the middle of the
    /// board.
    pub fn default_center() -> (density: Density)
        ensures
            density.wf(),
            density.numerator == 3,
            density.denominator == 10,
    {
        Density { numerator: 3, denominator: 10 }
    }
}

} // verus!
