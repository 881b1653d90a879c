//! The patterns that can be stamped on the board, each a fixed set of live
//! cells inside a bounding box.

use vstd::prelude::*;
use crate::board::Board;

verus! {

/// A pattern: the size of its bounding box, and the offsets `(dx, dy)` of
/// its live cells from the box's top-left corner.
pub struct Shape {
    pub width: nat,
    pub height: nat,
    pub cells: Set<(int, int)>,
}

impl Shape {
    /// Every live cell of the pattern lies inside its bounding box.
    pub open spec fn wf(self) -> bool {
        forall|dx: int, dy: int| #[trigger]
            self.cells.contains((dx, dy)) ==> 0 <= dx < self.width && 0 <= dy < self.height
    }

    /// The pattern's box, with its corner at `(x, y)`, lies on the board.
    pub open spec fn fits(self, board: Board, x: int, y: int) -> bool {
        0 <= x && 0 <= y && x + self.width <= board.width && y + self.height <= board.height
    }
}

/// The glider.
pub open spec fn glider() -> Shape {
    Shape { width: 3, height: 3, cells: set![(1, 0), (2, 1), (0, 2), (1, 2), (2, 2)] }
}

/// The spaceship.
pub open spec fn spaceship() -> Shape {
    Shape {
        width: 5,
        height: 4,
        cells: set![(1, 0), (4, 0), (0, 1), (0, 2), (4, 2), (0, 3), (1, 3), (2, 3), (3, 3)],
    }
}

/// The block at the left of the glider gun.
pub open spec fn gun_left_block() -> Set<(int, int)> {
    set![(0, 4), (1, 4), (0, 5), (1, 5)]
}

/// The body of the glider gun.
pub open spec fn gun_body() -> Set<(int, int)> {
    set![
        (12, 2), (13, 2),
        (11, 3), (15, 3),
        (10, 4), (16, 4),
        (10, 5), (14, 5), (16, 5), (17, 5),
        (10, 6), (16, 6),
        (11, 7), (15, 7),
        (12, 8), (13, 8)
    ]
}

/// The block at the right of the glider gun.
pub open spec fn gun_right_block() -> Set<(int, int)> {
    set![(24, 2), (25, 2), (24, 3), (25, 3)]
}

/// The glider gun: two blocks and the body between them.
pub open spec fn glider_gun() -> Shape {
    Shape {
        width: 37,
        height: 10,
        cells: gun_left_block().union(gun_body()).union(gun_right_block()),
    }
}

/// The places along one axis of the pulsar's bars.
pub open spec fn pulsar_bar(d: int) -> bool {
    2 <= d <= 4 || 8 <= d <= 10
}

/// The places across, at which the pulsar's bars lie.
pub open spec fn pulsar_rail(d: int) -> bool {
    d == 0 || d == 5 || d == 7 || d == 12
}

/// The two bars of the pulsar that lie along one rail: in row `rail` where
/// `across` holds, in column `rail` where it does not.
pub open spec fn pulsar_bars(rail: int, across: bool) -> Set<(int, int)> {
    Set::new(
        |c: (int, int)|
            if across {
                pulsar_bar(c.0) && c.1 == rail
            } else {
                c.0 == rail && pulsar_bar(c.1)
            },
    )
}

/// The pulsar: four horizontal rows of two bars each, and the same four
/// vertical.
pub open spec fn pulsar() -> Shape {
    Shape {
        width: 13,
        height: 13,
        cells: Set::new(
            |c: (int, int)|
                (pulsar_bar(c.0) && pulsar_rail(c.1)) || (pulsar_rail(c.0) && pulsar_bar(c.1)),
        ),
    }
}

/// The R-pentomino.
pub open spec fn r_pentomino() -> Shape {
    Shape { width: 3, height: 3, cells: set![(1, 0), (2, 0), (0, 1), (1, 1), (1, 2)] }
}

impl Board {
    /// This board with the pattern's cells made alive, the pattern's corner
    /// at `(x, y)`. Cells that were alive stay alive.
    pub open spec fn stamped(self, cells: Set<(int, int)>, x: int, y: int) -> Board {
        Board::from_fn(
            self.width,
            self.height,
            |cx: int, cy: int| self.alive(cx, cy) || cells.contains((cx - x, cy - y)),
        )
    }
}

} // verus!
