//! The update engine: one tick of the simulation on a `World`.

use vstd::prelude::*;
use rand::rngs::StdRng;
use crate::grid::{lemma_index_in_range, Particle};
use crate::material::Kind;
use crate::random::{draw_reach, draw_side, os_generator, seeded_generator};
use crate::rules::{draws_fit, shift, Draws};
use crate::conservation::lemma_tick_conserves;
use crate::falling::lemma_lone_sand_falls;
use crate::stasis::lemma_tick_keeps_resting;
use crate::marking::lemma_tick_marks_particles;
use crate::scan::{
    lemma_destination_in_bounds, lemma_sweep_shape, lemma_tick_shape, lemma_visit_shape,
    lemma_walk_ignores_later_draws,
};
use crate::world::World;

verus! {

/// The seed of the generator that is made where the operating system gives
/// none.
pub const FALLBACK_SEED: u64 = 0;

/// A generator to draw ticks from: seeded by the operating system where it
/// gives a seed, and with `FALLBACK_SEED` where it gives none.
pub fn generator() -> StdRng {
    match os_generator() {
        Some(rng) => rng,
        None => seeded_generator(FALLBACK_SEED),
    }
}

/// The column `reach` cells from `x` to `side`, if a grid of `width` columns
/// has it.
fn shifted(x: usize, reach: usize, side: bool, width: usize) -> (column: Option<usize>)
    requires
        x < width,
    ensures
        column == if 0 <= shift(x as int, reach as int, side) < width {
            Some(shift(x as int, reach as int, side) as usize)
        } else {
            None
        },
{
    if side {
        if reach < width - x {
            Some(x + reach)
        } else {
            None
        }
    } else {
        if reach <= x {
            Some(x - reach)
        } else {
            None
        }
    }
}

impl World {
    /// Whether `(x, y)` is on the grid and holds `kind`.
    fn holds(&self, x: usize, y: usize, kind: Kind) -> (held: bool)
        requires
            self@.shaped(),
        ensures
            held == self@.holds(x as int, y as int, kind),
    {
        if x < self.width && y < self.height {
            let i = self.offset(x, y);
            self.particles[i].kind == kind
        } else {
            false
        }
    }

    /// Whether sand and gravel can sink into `(x, y)`.
    fn yielding(&self, x: usize, y: usize) -> (open: bool)
        requires
            self@.shaped(),
        ensures
            open == self@.yielding(x as int, y as int),
    {
        self.holds(x, y, Kind::Empty) || (self.policy.sink_through_water && self.holds(
            x,
            y,
            Kind::Water,
        ))
    }

    /// The cell in the row below `y` that water at `(x, y)` reaches by a jump
    /// of `reach` columns to `side`, if the jump is open.
    fn bridge(&self, x: usize, y: usize, reach: usize, side: bool) -> (landing: Option<usize>)
        requires
            self@.shaped(),
            self@.in_bounds(x as int, y as int),
        ensures
            landing is Some <==> self@.bridged(x as int, y as int, reach as int, side),
            landing matches Some(column) ==> column == shift(x as int, reach as int, side),
    {
        if reach == 0 {
            return None;
        }
        match shifted(x, reach, side, self.width) {
            Some(column) => {
                match shifted(x, reach - 1, side, self.width) {
                    Some(stone) => {
                        if self.holds(column, y + 1, Kind::Empty) && self.holds(
                            stone,
                            y + 1,
                            Kind::Water,
                        ) {
                            Some(column)
                        } else {
                            None
                        }
                    },
                    None => None,
                }
            },
            None => None,
        }
    }

    /// The cell that the particle at `(x, y)` moves to under `draws`, if it
    /// moves: the first satisfied candidate of its material. Off the grid
    /// there is no particle, and the answer is `None`.
    pub fn destination(&self, x: usize, y: usize, draws: &Draws) -> (target: Option<(usize, usize)>)
        requires
            self@.shaped(),
        ensures
            !self@.in_bounds(x as int, y as int) ==> target is None,
            self@.in_bounds(x as int, y as int) ==> match target {
                Some((column, row)) => self@.destination(x as int, y as int, *draws) == Some(
                    (column as int, row as int),
                ),
                None => self@.destination(x as int, y as int, *draws) is None,
            },
    {
        if !(x < self.width && y < self.height) {
            return None;
        }
        let i = self.offset(x, y);
        match self.particles[i].kind {
            Kind::Empty | Kind::Stone => None,
            Kind::Sand => {
                if self.yielding(x, y + 1) {
                    Some((x, y + 1))
                } else if !self.policy.diagonal_fallback {
                    None
                } else {
                    match shifted(x, 1, draws.slide, self.width) {
                        Some(column) => {
                            if self.yielding(column, y + 1) {
                                Some((column, y + 1))
                            } else {
                                None
                            }
                        },
                        None => None,
                    }
                }
            },
            Kind::Gravel => {
                if self.yielding(x, y + 1) {
                    Some((x, y + 1))
                } else {
                    None
                }
            },
            Kind::Water => {
                if self.holds(x, y + 1, Kind::Empty) {
                    return Some((x, y + 1));
                }
                if let Some(column) = self.bridge(x, y, draws.near, draws.near_side) {
                    return Some((column, y + 1));
                }
                if let Some(column) = shifted(x, 1, !draws.lateral, self.width) {
                    if self.holds(column, y, Kind::Empty) {
                        return Some((column, y));
                    }
                }
                if let Some(column) = self.bridge(x, y, draws.far, draws.far_side) {
                    return Some((column, y + 1));
                }
                None
            },
        }
    }
}

impl World {
    /// Draws what the visit of `(x, y)` consumes: one side for sand that
    /// cannot sink straight down, though a row lies below it, and tries a
    /// diagonal; two reaches and three sides for water that cannot fall;
    /// nothing otherwise.
    fn draw_for(&self, x: usize, y: usize, rng: &mut StdRng) -> (draws: Draws)
        requires
            self@.shaped(),
            self@.in_bounds(x as int, y as int),
        ensures
            draws.valid(),
    {
        let i = self.offset(x, y);
        match self.particles[i].kind {
            Kind::Sand => {
                if self.policy.diagonal_fallback && y + 1 < self.height && !self.yielding(
                    x,
                    y + 1,
                ) {
                    let slide = draw_side(rng);
                    Draws { slide, near: 1, near_side: false, lateral: false, far: 2, far_side: false }
                } else {
                    Draws::none()
                }
            },
            Kind::Water => {
                if !self.holds(x, y + 1, Kind::Empty) {
                    let near = draw_reach(rng, 1, 3);
                    let near_side = draw_side(rng);
                    let lateral = draw_side(rng);
                    let far = draw_reach(rng, 2, 5);
                    let far_side = draw_side(rng);
                    Draws {
                        slide: false,
                        near: near as usize,
                        near_side,
                        lateral,
                        far: far as usize,
                        far_side,
                    }
                } else {
                    Draws::none()
                }
            },
            _ => Draws::none(),
        }
    }

    /// Exchanges the contents of two cells of the grid.
    fn exchange(&mut self, x1: usize, y1: usize, x2: usize, y2: usize)
        requires
            old(self)@.shaped(),
            old(self)@.in_bounds(x1 as int, y1 as int),
            old(self)@.in_bounds(x2 as int, y2 as int),
        ensures
            final(self)@ == old(self)@.exchange(x1 as int, y1 as int, x2 as int, y2 as int),
    {
        let i = self.offset(x1, y1);
        let j = self.offset(x2, y2);
        let moved = self.particles[i];
        let displaced = self.particles[j];
        self.particles[i] = displaced;
        self.particles[j] = moved;
    }

    /// Visits the cell at `(x, y)` with the given draws: a cell that carries
    /// the tick's parity is passed over, any other is marked, and its
    /// particle moves to its destination.
    fn settle(&mut self, x: usize, y: usize, draws: &Draws)
        requires
            old(self)@.shaped(),
            old(self)@.in_bounds(x as int, y as int),
        ensures
            final(self)@ == old(self)@.visit(x as int, y as int, *draws),
    {
        let i = self.offset(x, y);
        let cell = self.particles[i];
        if cell.touched != self.clock {
            self.particles[i] = Particle { kind: cell.kind, touched: self.clock };
            proof {
                lemma_index_in_range(old(self)@, x as int, y as int);
            }
            match self.destination(x, y, draws) {
                Some((column, row)) => {
                    proof {
                        lemma_destination_in_bounds(self@, x as int, y as int, *draws);
                    }
                    self.exchange(x, y, column, row);
                },
                None => {},
            }
        }
    }

    /// Visits the cell at `(x, y)` with draws from `rng`, and returns the
    /// draws that the visit consumed. A cell that is passed over consumes
    /// none.
    fn visit(&mut self, x: usize, y: usize, rng: &mut StdRng) -> (draws: Draws)
        requires
            old(self)@.shaped(),
            old(self)@.in_bounds(x as int, y as int),
        ensures
            draws.valid(),
            final(self)@ == old(self)@.visit(x as int, y as int, draws),
    {
        let i = self.offset(x, y);
        let draws = if self.particles[i].touched != self.clock {
            self.draw_for(x, y, rng)
        } else {
            Draws::none()
        };
        self.settle(x, y, &draws);
        draws
    }

    /// Advances the simulation by one tick with the draws of a script in
    /// place of a generator's: the visit of the cell at `(x, y)` takes
    /// `draws[y * width + x]`. What is left is a function of the grid and
    /// the script.
    pub fn replay(&mut self, draws: &Vec<Draws>)
        requires
            old(self).wf(),
            draws@.len() == old(self)@.cells.len(),
        ensures
            final(self).wf(),
            final(self)@ == old(self)@.tick(draws@),
    {
        self.clock = !self.clock;
        let ghost start = self@;
        let mut rows: usize = 0;
        while rows < self.height
            invariant
                rows <= self.height,
                start.shaped(),
                start == old(self)@.flip(),
                self@.framed_as(start),
                self@.shaped(),
                draws@.len() == start.cells.len(),
                self@ == start.sweep(draws@, rows as nat),
            decreases self.height - rows,
        {
            let y = self.height - 1 - rows;
            let mut done: usize = 0;
            while done < self.width
                invariant
                    done <= self.width,
                    rows < self.height,
                    y == self.height - 1 - rows,
                    start.shaped(),
                    self@.framed_as(start),
                    self@.shaped(),
                    draws@.len() == start.cells.len(),
                    self@ == start.sweep(draws@, rows as nat).sweep_row(
                        draws@,
                        y as int,
                        done as nat,
                    ),
                decreases self.width - done,
            {
                let x = if self.clock || !self.policy.alternate_scan {
                    done
                } else {
                    self.width - 1 - done
                };
                let ghost before = self@;
                let i = self.offset(x, y);
                self.settle(x, y, &draws[i]);
                proof {
                    lemma_sweep_shape(start, draws@, rows as nat);
                    lemma_visit_shape(before, x as int, y as int, draws@[i as int]);
                }
                done = done + 1;
            }
            rows = rows + 1;
        }
        proof {
            assert(self@ == old(self)@.tick(draws@));
            lemma_tick_marks_particles(old(self)@, draws@);
        }
    }

    /// The walk of a tick that draws from `rng`, and the draws that it
    /// consumed, cell by cell. With `keep`, they are also written to
    /// `script`.
    fn walk_drawing(&mut self, rng: &mut StdRng, script: &mut Vec<Draws>, keep: bool) -> (used:
        Ghost<Seq<Draws>>)
        requires
            old(self)@.shaped(),
            keep ==> old(script)@ == Seq::new(old(self)@.cells.len(), |i: int| Draws::idle()),
        ensures
            draws_fit(used@, old(self)@.cells.len()),
            final(self)@ == old(self)@.tick(used@),
            keep ==> final(script)@ == used@,
    {
        self.clock = !self.clock;
        let ghost start = self@;
        let ghost mut used: Seq<Draws> = Seq::new(start.cells.len(), |i: int| Draws::idle());
        let mut rows: usize = 0;
        while rows < self.height
            invariant
                rows <= self.height,
                start.shaped(),
                start == old(self)@.flip(),
                self@.framed_as(start),
                self@.shaped(),
                draws_fit(used, start.cells.len()),
                keep ==> script@ == used,
                self@ == start.sweep(used, rows as nat),
            decreases self.height - rows,
        {
            let y = self.height - 1 - rows;
            let mut done: usize = 0;
            while done < self.width
                invariant
                    done <= self.width,
                    rows < self.height,
                    y == self.height - 1 - rows,
                    start.shaped(),
                    self@.framed_as(start),
                    self@.shaped(),
                    draws_fit(used, start.cells.len()),
                    keep ==> script@ == used,
                    self@ == start.sweep(used, rows as nat).sweep_row(used, y as int, done as nat),
                decreases self.width - done,
            {
                let x = if self.clock || !self.policy.alternate_scan {
                    done
                } else {
                    self.width - 1 - done
                };
                let ghost before = self@;
                let i = self.offset(x, y);
                let draws = self.visit(x, y, rng);
                if keep {
                    script[i] = draws;
                }
                proof {
                    lemma_walk_ignores_later_draws(start, used, rows as nat, done as nat, draws);
                    lemma_visit_shape(before, x as int, y as int, draws);
                    used = used.update(i as int, draws);
                    let row_start = start.sweep(used, rows as nat);
                    lemma_sweep_shape(start, used, rows as nat);
                    assert(row_start.column(done as int) == x);
                    assert(row_start.index(x as int, y as int) == i);
                    assert(used[i as int] == draws);
                    assert(row_start.sweep_row(used, y as int, done as nat) == before);
                }
                done = done + 1;
            }
            rows = rows + 1;
        }
        assert(self@ == old(self)@.tick(used));
        Ghost(used)
    }

    /// Advances the simulation by one tick, drawing from `rng`: the parity is
    /// inverted, and every cell is visited once, the floor first, each row
    /// towards growing `x` if the new parity is `true`, and the other way if
    /// it is `false` and the scan alternates. Whatever `rng` gives, the grid
    /// that is left is the tick of the grid that was found, for some valid
    /// draws.
    pub fn advance(&mut self, rng: &mut StdRng)
        requires
            old(self).wf(),
        ensures
            final(self).wf(),
            exists|draws: Seq<Draws>|
                draws_fit(draws, old(self)@.cells.len()) && final(self)@
                    == #[trigger] old(self)@.tick(draws),
            final(self)@.width == old(self)@.width,
            final(self)@.height == old(self)@.height,
            final(self)@.clock == !old(self)@.clock,
            final(self)@.policy == old(self)@.policy,
            forall|kind: Kind| #[trigger]
                final(self)@.population(kind) == old(self)@.population(kind),
            final(self)@.occupied() == old(self)@.occupied(),
            forall|x: int, y: int, kind: Kind|
                old(self)@.resting(x, y, kind) ==> #[trigger] final(self)@.resting(x, y, kind),
            forall|x: int, y: int| #[trigger]
                old(self)@.lone_sand(x, y) && old(self)@.in_bounds(x, y + 1)
                    ==> final(self)@.lone_sand(x, y + 1),
    {
        let mut unkept: Vec<Draws> = Vec::new();
        let used = self.walk_drawing(rng, &mut unkept, false);
        proof {
            lemma_tick_shape(old(self)@, used@);
            lemma_tick_marks_particles(old(self)@, used@);
            lemma_tick_conserves(old(self)@, used@);
            assert forall|x: int, y: int, kind: Kind| old(self)@.resting(x, y, kind) implies #[trigger] self@.resting(
                x,
                y,
                kind,
            ) by {
                lemma_tick_keeps_resting(old(self)@, used@, x, y, kind);
            }
            assert forall|x: int, y: int| #[trigger]
                old(self)@.lone_sand(x, y) && old(self)@.in_bounds(x, y + 1) implies self@.lone_sand(
                x,
                y + 1,
            ) by {
                lemma_lone_sand_falls(old(self)@, used@, x, y);
            }
        }
    }

    /// Advances the simulation by one tick, as `advance` does, and returns
    /// the script of what was drawn: the draws of the visit of the cell at
    /// `(x, y)` stand at `y * width + x`. `replay` with the script, on the
    /// grid that was found, leaves the same grid.
    pub fn record(&mut self, rng: &mut StdRng) -> (script: Vec<Draws>)
        requires
            old(self).wf(),
        ensures
            final(self).wf(),
            draws_fit(script@, old(self)@.cells.len()),
            final(self)@ == old(self)@.tick(script@),
    {
        let mut script = vec![Draws::none(); self.particles.len()];
        assert(script@ =~= Seq::new(self@.cells.len(), |i: int| Draws::idle()));
        let used = self.walk_drawing(rng, &mut script, true);
        proof {
            lemma_tick_marks_particles(old(self)@, used@);
        }
        script
    }

    /// Advances the simulation by one tick, as `advance` does, drawing from
    /// a generator made by `generator` for this tick.
    pub fn update(&mut self)
        requires
            old(self).wf(),
        ensures
            final(self).wf(),
            exists|draws: Seq<Draws>|
                draws_fit(draws, old(self)@.cells.len()) && final(self)@
                    == #[trigger] old(self)@.tick(draws),
            final(self)@.width == old(self)@.width,
            final(self)@.height == old(self)@.height,
            final(self)@.clock == !old(self)@.clock,
            final(self)@.policy == old(self)@.policy,
            forall|kind: Kind| #[trigger]
                final(self)@.population(kind) == old(self)@.population(kind),
            final(self)@.occupied() == old(self)@.occupied(),
            forall|x: int, y: int, kind: Kind|
                old(self)@.resting(x, y, kind) ==> #[trigger] final(self)@.resting(x, y, kind),
            forall|x: int, y: int| #[trigger]
                old(self)@.lone_sand(x, y) && old(self)@.in_bounds(x, y + 1)
                    ==> final(self)@.lone_sand(x, y + 1),
    {
        let mut rng = generator();
        self.advance(&mut rng);
    }
}

} // verus!
