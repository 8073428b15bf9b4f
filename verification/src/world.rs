//! The simulation's state as it runs: the cells in a vector, the paint
//! interface, and the lookups that the engine and a renderer need.

use vstd::prelude::*;
use crate::grid::{lemma_index_in_range, tally, Grid, Particle};
use crate::material::Kind;
use crate::rules::Policy;

verus! {

/// The size of the grid that `World::new` makes.
pub const GRID_WIDTH: usize = 320;

pub const GRID_HEIGHT: usize = 240;

/// The most cells that a world is made with: as many as a vector of
/// particles surely holds on a machine with words of 32 bits.
pub const MAX_CELLS: usize = 0x2000_0000;

/// A grid of particles and the parity of its last tick.
pub struct World {
    pub(crate) width: usize,
    pub(crate) height: usize,
    pub(crate) clock: bool,
    pub(crate) policy: Policy,
    pub(crate) particles: Vec<Particle>,
}

impl World {
    /// The grid that the world holds.
    pub open(crate) spec fn view(&self) -> Grid {
        Grid {
            width: self.width as nat,
            height: self.height as nat,
            clock: self.clock,
            policy: self.policy,
            cells: self.particles@,
        }
    }

    /// What every world between two calls satisfies.
    pub open spec fn wf(&self) -> bool {
        self@.well_formed()
    }

    /// The canonical world: 320 by 240 cells, all empty, under the canonical
    /// rules.
    pub fn new() -> (world: World)
        ensures
            world.wf(),
            world@ == Grid::blank(GRID_WIDTH as nat, GRID_HEIGHT as nat, Policy::canonical()),
    {
        let particles = vec![Particle::default(); GRID_WIDTH * GRID_HEIGHT];
        let world = World {
            width: GRID_WIDTH,
            height: GRID_HEIGHT,
            clock: false,
            policy: Policy::standard(),
            particles,
        };
        assert(world@.cells =~= Grid::blank(
            GRID_WIDTH as nat,
            GRID_HEIGHT as nat,
            Policy::canonical(),
        ).cells);
        world
    }

    /// An all-empty world of the given size under the canonical rules,
    /// unless it would have more than `MAX_CELLS` cells.
    pub fn with_size(width: usize, height: usize) -> (made: Option<World>)
        ensures
            made is Some <==> width * height <= MAX_CELLS,
            made matches Some(world) ==> world.wf() && world@ == Grid::blank(
                width as nat,
                height as nat,
                Policy::canonical(),
            ),
    {
        World::with_policy(width, height, Policy::standard())
    }

    /// An all-empty world of the given size under the given rules, unless
    /// it would have more than `MAX_CELLS` cells.
    pub fn with_policy(width: usize, height: usize, policy: Policy) -> (made: Option<World>)
        ensures
            made is Some <==> width * height <= MAX_CELLS,
            made matches Some(world) ==> world.wf() && world@ == Grid::blank(
                width as nat,
                height as nat,
                policy,
            ),
    {
        match width.checked_mul(height) {
            Some(cells) if cells <= MAX_CELLS => {
                let particles = vec![Particle::default(); cells];
                let world = World { width, height, clock: false, policy, particles };
                assert(world@.cells =~= Grid::blank(width as nat, height as nat, policy).cells);
                Some(world)
            },
            _ => None,
        }
    }

    pub fn width(&self) -> (width: usize)
        ensures
            width == self@.width,
    {
        self.width
    }

    pub fn height(&self) -> (height: usize)
        ensures
            height == self@.height,
    {
        self.height
    }

    /// The parity of the last tick.
    pub fn clock(&self) -> (clock: bool)
        ensures
            clock == self@.clock,
    {
        self.clock
    }

    /// The rules that the world moves by.
    pub fn policy(&self) -> (policy: Policy)
        ensures
            policy == self@.policy,
    {
        self.policy
    }

    /// Where the cell at `(x, y)` stands among the particles.
    pub(crate) fn offset(&self, x: usize, y: usize) -> (i: usize)
        requires
            self@.shaped(),
            self@.in_bounds(x as int, y as int),
        ensures
            i == self@.index(x as int, y as int),
            i < self.particles.len(),
    {
        proof {
            lemma_index_in_range(self@, x as int, y as int);
            assert(self@.index(x as int, y as int) == y * self.width + x);
            assert(self.particles@.len() == self.particles.len());
            assert(0 <= y * self.width) by (nonlinear_arith)
                requires
                    0 <= y,
                    0 <= self.width,
            ;
        }
        y * self.width + x
    }

    /// The contents of the cell at `(x, y)`, if it is on the grid.
    pub fn get(&self, x: usize, y: usize) -> (cell: Option<Particle>)
        requires
            self@.shaped(),
        ensures
            cell == if self@.in_bounds(x as int, y as int) {
                Some(self@.at(x as int, y as int))
            } else {
                None
            },
    {
        if x < self.width && y < self.height {
            let i = self.offset(x, y);
            Some(self.particles[i])
        } else {
            None
        }
    }

    /// How many cells hold `kind`.
    pub fn count(&self, kind: Kind) -> (cells: usize)
        ensures
            cells == self@.population(kind),
    {
        let mut cells: usize = 0;
        let mut i: usize = 0;
        while i < self.particles.len()
            invariant
                i <= self.particles.len(),
                cells <= i,
                cells == tally(self.particles@.take(i as int), kind),
            decreases self.particles.len() - i,
        {
            assert(self.particles@.take(i + 1).drop_last() =~= self.particles@.take(i as int));
            if self.particles[i].kind == kind {
                cells = cells + 1;
            }
            i = i + 1;
        }
        assert(self.particles@.take(i as int) =~= self.particles@);
        cells
    }

    /// Paints `kind` at `pos`, which is `(x, y)`. Erasing, that is painting
    /// `Kind::Empty`, always takes effect on the grid; another material is
    /// placed only on an empty cell. Off the grid nothing happens.
    pub fn set_pixel(&mut self, pos: (usize, usize), kind: Kind)
        requires
            old(self).wf(),
        ensures
            final(self).wf(),
            final(self)@ == old(self)@.paint(pos.0 as int, pos.1 as int, kind),
    {
        let (x, y) = pos;
        if x < self.width && y < self.height {
            let i = self.offset(x, y);
            if kind == Kind::Empty || self.particles[i].empty() {
                self.particles[i] = Particle { kind, touched: self.clock };
            }
        }
    }
}

} // verus!
