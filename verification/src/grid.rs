//! The mathematical model of the simulation's state: a rectangle of cells in
//! row-major order, and the tick parity that the cells' markers are read
//! against.

use vstd::prelude::*;
use crate::material::Kind;
use crate::rules::Policy;

verus! {

/// The contents of one cell: a material, and the marker that says whether the
/// cell was already handled in the tick of parity `touched`.
#[derive(Clone, Copy, Debug, PartialEq, Eq, Structural)]
pub struct Particle {
    pub kind: Kind,
    pub touched: bool,
}

impl Particle {
    pub fn empty(&self) -> (vacant: bool)
        ensures
            vacant == (self.kind == Kind::Empty),
    {
        self.kind == Kind::Empty
    }
}

impl Default for Particle {
    fn default() -> (particle: Particle)
        ensures
            particle == (Particle { kind: Kind::Empty, touched: false }),
    {
        Particle { kind: Kind::Empty, touched: false }
    }
}

/// A grid of `width * height` cells. Cell `(x, y)` is `cells[y * width + x]`;
/// `y` grows downwards, so row `height - 1` is the floor.
pub struct Grid {
    pub width: nat,
    pub height: nat,
    pub clock: bool,
    pub policy: Policy,
    pub cells: Seq<Particle>,
}

impl Grid {
    pub open spec fn in_bounds(self, x: int, y: int) -> bool {
        0 <= x < self.width && 0 <= y < self.height
    }

    pub open spec fn index(self, x: int, y: int) -> int {
        y * self.width + x
    }

    pub open spec fn at(self, x: int, y: int) -> Particle {
        self.cells[self.index(x, y)]
    }

    /// The grid has one cell for each coordinate.
    pub open spec fn shaped(self) -> bool {
        self.cells.len() == self.width * self.height
    }

    /// Between ticks, every particle carries the parity of the last tick. An
    /// empty cell's marker is free.
    pub open spec fn well_formed(self) -> bool {
        &&& self.shaped()
        &&& forall|i: int|
            0 <= i < self.cells.len() && (#[trigger] self.cells[i]).kind != Kind::Empty
                ==> self.cells[i].touched == self.clock
    }

    /// Whether `(x, y)` is on the grid and holds `kind`.
    pub open spec fn holds(self, x: int, y: int, kind: Kind) -> bool {
        self.in_bounds(x, y) && self.at(x, y).kind == kind
    }

    pub open spec fn put(self, x: int, y: int, particle: Particle) -> Grid {
        Grid { cells: self.cells.update(self.index(x, y), particle), ..self }
    }

    /// The grid with the cell at `(x, y)` marked as handled in the current tick.
    pub open spec fn mark(self, x: int, y: int) -> Grid {
        self.put(x, y, Particle { kind: self.at(x, y).kind, touched: self.clock })
    }

    /// The grid with the whole contents of two cells exchanged.
    pub open spec fn exchange(self, x1: int, y1: int, x2: int, y2: int) -> Grid {
        self.put(x1, y1, self.at(x2, y2)).put(x2, y2, self.at(x1, y1))
    }

    /// The grid with the tick parity inverted.
    pub open spec fn flip(self) -> Grid {
        Grid { clock: !self.clock, ..self }
    }

    /// What painting `kind` at `(x, y)` leaves: erasing always succeeds on the
    /// grid, any other material is placed on an empty cell only, and a
    /// coordinate off the grid changes nothing.
    pub open spec fn paint(self, x: int, y: int, kind: Kind) -> Grid {
        if self.in_bounds(x, y) && (kind == Kind::Empty || self.at(x, y).kind == Kind::Empty) {
            self.put(x, y, Particle { kind, touched: self.clock })
        } else {
            self
        }
    }

    /// How many cells hold `kind`.
    pub open spec fn population(self, kind: Kind) -> nat {
        tally(self.cells, kind)
    }

    /// How many cells hold a particle.
    pub open spec fn occupied(self) -> nat {
        (self.cells.len() - self.population(Kind::Empty)) as nat
    }

    /// The all-empty grid that a simulation under `policy` starts from.
    pub open spec fn blank(width: nat, height: nat, policy: Policy) -> Grid {
        Grid {
            width,
            height,
            clock: false,
            policy,
            cells: Seq::new(width * height, |i: int| Particle { kind: Kind::Empty, touched: false }),
        }
    }
}

/// How many of `cells` hold `kind`.
pub open spec fn tally(cells: Seq<Particle>, kind: Kind) -> nat
    decreases cells.len(),
{
    if cells.len() == 0 {
        0
    } else {
        tally(cells.drop_last(), kind) + if cells.last().kind == kind {
            1nat
        } else {
            0nat
        }
    }
}

/// No more cells hold a kind than there are cells.
pub proof fn lemma_tally_bound(cells: Seq<Particle>, kind: Kind)
    ensures
        tally(cells, kind) <= cells.len(),
    decreases cells.len(),
{
    if cells.len() > 0 {
        lemma_tally_bound(cells.drop_last(), kind);
    }
}

/// Replacing one cell's contents moves the count of a kind by what left and
/// what came.
pub proof fn lemma_tally_update(cells: Seq<Particle>, i: int, particle: Particle, kind: Kind)
    requires
        0 <= i < cells.len(),
    ensures
        tally(cells.update(i, particle), kind) + (if cells[i].kind == kind {
            1nat
        } else {
            0nat
        }) == tally(cells, kind) + (if particle.kind == kind {
            1nat
        } else {
            0nat
        }),
    decreases cells.len(),
{
    let changed = cells.update(i, particle);
    if i == cells.len() - 1 {
        assert(changed.drop_last() =~= cells.drop_last());
    } else {
        assert(changed.drop_last() =~= cells.drop_last().update(i, particle));
        lemma_tally_update(cells.drop_last(), i, particle, kind);
    }
}

/// A coordinate on the grid has its index among the cells.
pub proof fn lemma_index_in_range(g: Grid, x: int, y: int)
    requires
        g.in_bounds(x, y),
    ensures
        0 <= g.index(x, y) < g.width * g.height,
{
    let w = g.width as int;
    let h = g.height as int;
    assert(0 <= y * w + x < w * h) by (nonlinear_arith)
        requires
            0 <= x < w,
            0 <= y < h,
    ;
}

/// Two coordinates on the grid with one index are one coordinate.
pub proof fn lemma_index_injective(g: Grid, x1: int, y1: int, x2: int, y2: int)
    requires
        g.in_bounds(x1, y1),
        g.in_bounds(x2, y2),
        g.index(x1, y1) == g.index(x2, y2),
    ensures
        x1 == x2,
        y1 == y2,
{
    let w = g.width as int;
    assert(y1 == y2 && x1 == x2) by (nonlinear_arith)
        requires
            0 <= x1 < w,
            0 <= x2 < w,
            0 <= y1,
            0 <= y2,
            y1 * w + x1 == y2 * w + x2,
    ;
}

/// What a cell holds after the contents of one cell were replaced.
pub proof fn lemma_put_at(g: Grid, x: int, y: int, particle: Particle, px: int, py: int)
    requires
        g.shaped(),
        g.in_bounds(x, y),
        g.in_bounds(px, py),
    ensures
        g.put(x, y, particle).at(px, py) == if px == x && py == y {
            particle
        } else {
            g.at(px, py)
        },
{
    lemma_index_in_range(g, x, y);
    lemma_index_in_range(g, px, py);
    if g.index(px, py) == g.index(x, y) {
        lemma_index_injective(g, px, py, x, y);
    }
}

/// What a cell holds after the contents of two cells were exchanged.
pub proof fn lemma_exchange_at(g: Grid, x1: int, y1: int, x2: int, y2: int, px: int, py: int)
    requires
        g.shaped(),
        g.in_bounds(x1, y1),
        g.in_bounds(x2, y2),
        g.in_bounds(px, py),
    ensures
        g.exchange(x1, y1, x2, y2).at(px, py) == if px == x2 && py == y2 {
            g.at(x1, y1)
        } else if px == x1 && py == y1 {
            g.at(x2, y2)
        } else {
            g.at(px, py)
        },
{
    let first = g.put(x1, y1, g.at(x2, y2));
    lemma_index_in_range(g, x1, y1);
    lemma_put_at(g, x1, y1, g.at(x2, y2), px, py);
    lemma_put_at(first, x2, y2, g.at(x1, y1), px, py);
}

/// Every index among the cells is the index of one coordinate on the grid.
pub proof fn lemma_index_covers(g: Grid, i: int)
    requires
        0 <= i < g.width * g.height,
    ensures
        g.width > 0,
        g.in_bounds(i % (g.width as int), i / (g.width as int)),
        g.index(i % (g.width as int), i / (g.width as int)) == i,
{
    let w = g.width as int;
    let h = g.height as int;
    assert(w > 0) by (nonlinear_arith)
        requires
            0 <= i < w * h,
            0 <= w,
    ;
    assert(0 <= i % w < w && 0 <= i / w < h && (i / w) * w + i % w == i) by (nonlinear_arith)
        requires
            0 <= i < w * h,
            0 < w,
    ;
}

} // verus!
