//! The movement policy: where the particle in a cell goes when the cell is
//! visited, in what order a tick visits the cells, and what a whole tick makes
//! of a grid.

use vstd::prelude::*;
use crate::grid::Grid;
use crate::material::Kind;

verus! {

/// The choices that the movement rules leave open. The canonical rules make
/// all three.
#[derive(Clone, Copy, Debug, PartialEq, Eq, Structural)]
pub struct Policy {
    /// Whether sand and gravel sink into water, changing places with it.
    pub sink_through_water: bool,
    /// Whether sand that cannot sink straight down tries a diagonal.
    pub diagonal_fallback: bool,
    /// Whether rows are walked the other way in every second tick. Without
    /// it, every tick walks them towards growing `x`.
    pub alternate_scan: bool,
}

impl Policy {
    /// The canonical rules.
    pub open spec fn canonical() -> Policy {
        Policy { sink_through_water: true, diagonal_fallback: true, alternate_scan: true }
    }

    /// The canonical rules.
    pub fn standard() -> (policy: Policy)
        ensures
            policy == Policy::canonical(),
    {
        Policy { sink_through_water: true, diagonal_fallback: true, alternate_scan: true }
    }
}

/// The random values that the visit of one cell may consume. Sand that cannot
/// sink straight down reads `slide`; water that cannot fall reads the other
/// five. A side is `true` for the direction of growing `x`.
#[derive(Clone, Copy, Debug, PartialEq, Eq, Structural)]
pub struct Draws {
    /// The diagonal that blocked sand tries.
    pub slide: bool,
    /// How far the first diagonal jump of water reaches, and to which side.
    pub near: usize,
    pub near_side: bool,
    /// Which neighbour in its own row water tries: `true` is the one at `x - 1`.
    pub lateral: bool,
    /// How far the second diagonal jump of water reaches, and to which side.
    pub far: usize,
    pub far_side: bool,
}

impl Draws {
    /// The ranges that the reaches are drawn from.
    pub open spec fn valid(self) -> bool {
        1 <= self.near < 3 && 2 <= self.far < 5
    }

    /// The draws of a visit that consumes none.
    pub open spec fn idle() -> Draws {
        Draws { slide: false, near: 1, near_side: false, lateral: false, far: 2, far_side: false }
    }

    /// The draws of a visit that consumes none.
    pub fn none() -> (draws: Draws)
        ensures
            draws == Draws::idle(),
            draws.valid(),
    {
        Draws { slide: false, near: 1, near_side: false, lateral: false, far: 2, far_side: false }
    }
}

/// The column `reach` cells from `x`, on the side of growing `x` if `side`.
pub open spec fn shift(x: int, reach: int, side: bool) -> int {
    if side {
        x + reach
    } else {
        x - reach
    }
}

impl Grid {
    /// Whether sand and gravel can sink into `(x, y)`: it is on the grid and
    /// holds nothing, or water that they sink through.
    pub open spec fn yielding(self, x: int, y: int) -> bool {
        self.holds(x, y, Kind::Empty) || (self.policy.sink_through_water && self.holds(
            x,
            y,
            Kind::Water,
        ))
    }

    /// Whether water at `(x, y)` can jump `reach` columns to `side` into the
    /// row below: the cell it lands in is empty, and the cell one step before
    /// it in that row already holds water.
    pub open spec fn bridged(self, x: int, y: int, reach: int, side: bool) -> bool {
        &&& 1 <= reach
        &&& self.holds(shift(x, reach, side), y + 1, Kind::Empty)
        &&& self.holds(shift(x, reach - 1, side), y + 1, Kind::Water)
    }

    /// The cell that the particle at `(x, y)` moves to, if any: the first of
    /// its material's candidates that is satisfied.
    pub open spec fn destination(self, x: int, y: int, draws: Draws) -> Option<(int, int)> {
        match self.at(x, y).kind {
            Kind::Empty | Kind::Stone => None,
            Kind::Sand => {
                if self.yielding(x, y + 1) {
                    Some((x, y + 1))
                } else if self.policy.diagonal_fallback && self.yielding(
                    shift(x, 1, draws.slide),
                    y + 1,
                ) {
                    Some((shift(x, 1, draws.slide), y + 1))
                } else {
                    None
                }
            },
            Kind::Gravel => {
                if self.yielding(x, y + 1) {
                    Some((x, y + 1))
                } else {
                    None
                }
            },
            Kind::Water => {
                if self.holds(x, y + 1, Kind::Empty) {
                    Some((x, y + 1))
                } else if self.bridged(x, y, draws.near as int, draws.near_side) {
                    Some((shift(x, draws.near as int, draws.near_side), y + 1))
                } else if self.holds(shift(x, 1, !draws.lateral), y, Kind::Empty) {
                    Some((shift(x, 1, !draws.lateral), y))
                } else if self.bridged(x, y, draws.far as int, draws.far_side) {
                    Some((shift(x, draws.far as int, draws.far_side), y + 1))
                } else {
                    None
                }
            },
        }
    }

    /// The grid with the particle at `(x, y)` moved to its destination, by
    /// exchanging the two cells.
    pub open spec fn settle(self, x: int, y: int, draws: Draws) -> Grid {
        match self.destination(x, y, draws) {
            Some((dx, dy)) => self.exchange(x, y, dx, dy),
            None => self,
        }
    }

    /// One visit of the cell at `(x, y)`. A cell that already carries the
    /// tick's parity is passed over: it was handled, or holds a particle that
    /// moved into it, earlier in the tick. Any other cell is marked, and then
    /// its particle moves.
    pub open spec fn visit(self, x: int, y: int, draws: Draws) -> Grid {
        if self.at(x, y).touched == self.clock {
            self
        } else {
            self.mark(x, y).settle(x, y, draws)
        }
    }

    /// The column that is visited as number `j` of a row: rows are walked
    /// towards growing `x` in ticks of parity `true`, and the other way in
    /// ticks of parity `false` if the scan alternates.
    pub open spec fn column(self, j: int) -> int {
        if self.clock || !self.policy.alternate_scan {
            j
        } else {
            self.width - 1 - j
        }
    }

    /// The grid after the first `done` cells of row `y` were visited. The
    /// visit of `(x, y)` consumes `draws[y * width + x]`.
    pub open spec fn sweep_row(self, draws: Seq<Draws>, y: int, done: nat) -> Grid
        decreases done,
    {
        if done == 0 {
            self
        } else {
            let before = self.sweep_row(draws, y, (done - 1) as nat);
            let x = self.column(done - 1);
            before.visit(x, y, draws[self.index(x, y)])
        }
    }

    /// The grid after the lowest `done` rows were visited, the floor first.
    pub open spec fn sweep(self, draws: Seq<Draws>, done: nat) -> Grid
        decreases done,
    {
        if done == 0 {
            self
        } else {
            let before = self.sweep(draws, (done - 1) as nat);
            before.sweep_row(draws, self.height - done, self.width)
        }
    }

    /// One tick: the parity is inverted, and every cell is visited once.
    pub open spec fn tick(self, draws: Seq<Draws>) -> Grid {
        self.flip().sweep(draws, self.height)
    }

    /// As many ticks as `ticks` has entries, each with its own draws.
    pub open spec fn run(self, ticks: Seq<Seq<Draws>>) -> Grid
        decreases ticks.len(),
    {
        if ticks.len() == 0 {
            self
        } else {
            self.run(ticks.drop_last()).tick(ticks.last())
        }
    }
}

/// Whether `draws` holds valid draws for each cell of a grid of `cells` cells.
pub open spec fn draws_fit(draws: Seq<Draws>, cells: nat) -> bool {
    &&& draws.len() == cells
    &&& forall|i: int| 0 <= i < draws.len() ==> (#[trigger] draws[i]).valid()
}

} // verus!
