//! Movement conserves mass: a tick moves particles, and neither makes nor
//! removes any.

use vstd::prelude::*;
use crate::grid::{lemma_index_in_range, lemma_index_injective, lemma_tally_update, Grid, Particle};
use crate::material::Kind;
use crate::rules::Draws;
use crate::scan::{
    lemma_destination_in_bounds, lemma_put_shape, lemma_tick_is_walk, lemma_tick_shape,
    lemma_walk_row, lemma_walk_step,
};

verus! {

/// Exchanging two cells keeps the number of cells of each kind.
pub proof fn lemma_exchange_conserves(g: Grid, x1: int, y1: int, x2: int, y2: int, kind: Kind)
    requires
        g.shaped(),
        g.in_bounds(x1, y1),
        g.in_bounds(x2, y2),
    ensures
        g.exchange(x1, y1, x2, y2).population(kind) == g.population(kind),
{
    let i = g.index(x1, y1);
    let j = g.index(x2, y2);
    lemma_index_in_range(g, x1, y1);
    lemma_index_in_range(g, x2, y2);
    let first = g.put(x1, y1, g.at(x2, y2));
    lemma_tally_update(g.cells, i, g.at(x2, y2), kind);
    lemma_tally_update(first.cells, j, g.at(x1, y1), kind);
    if i == j {
        lemma_index_injective(g, x1, y1, x2, y2);
    }
}

/// A visit keeps the number of cells of each kind.
pub proof fn lemma_visit_conserves(g: Grid, x: int, y: int, draws: Draws, kind: Kind)
    requires
        g.shaped(),
        g.in_bounds(x, y),
    ensures
        g.visit(x, y, draws).population(kind) == g.population(kind),
{
    if g.at(x, y).touched != g.clock {
        let moved = Particle { kind: g.at(x, y).kind, touched: g.clock };
        let marked = g.mark(x, y);
        lemma_index_in_range(g, x, y);
        lemma_tally_update(g.cells, g.index(x, y), moved, kind);
        lemma_put_shape(g, x, y, moved);
        lemma_destination_in_bounds(marked, x, y, draws);
        match marked.destination(x, y, draws) {
            Some((dx, dy)) => {
                lemma_exchange_conserves(marked, x, y, dx, dy, kind);
            },
            None => {},
        }
    }
}

/// However far a tick has walked, the number of cells of each kind is what it
/// was.
pub proof fn lemma_walk_conserves(g: Grid, draws: Seq<Draws>, rows: nat, done: nat, kind: Kind)
    requires
        g.shaped(),
        rows < g.height && done <= g.width || rows == g.height && done == 0,
    ensures
        g.walk(draws, rows, done).population(kind) == g.population(kind),
    decreases rows, done,
{
    if done > 0 {
        let prior = (done - 1) as nat;
        lemma_walk_conserves(g, draws, rows, prior, kind);
        lemma_walk_step(g, draws, rows, prior);
        let x = g.column(prior as int);
        let y = g.height - 1 - rows;
        lemma_visit_conserves(g.walk(draws, rows, prior), x, y, draws[g.index(x, y)], kind);
    } else if rows > 0 {
        let below = (rows - 1) as nat;
        lemma_walk_conserves(g, draws, below, g.width, kind);
        lemma_walk_row(g, draws, below);
    }
}

/// Mass conservation: after a tick, whatever was drawn, as many cells hold
/// each kind as before it, and so as many cells hold a particle.
pub proof fn lemma_tick_conserves(g: Grid, draws: Seq<Draws>)
    requires
        g.shaped(),
    ensures
        forall|kind: Kind| #[trigger] g.tick(draws).population(kind) == g.population(kind),
        g.tick(draws).occupied() == g.occupied(),
{
    lemma_tick_is_walk(g, draws);
    lemma_tick_shape(g, draws);
    assert forall|kind: Kind| #[trigger] g.tick(draws).population(kind) == g.population(kind) by {
        lemma_walk_conserves(g.flip(), draws, g.height, 0, kind);
    }
    assert(g.tick(draws).population(Kind::Empty) == g.population(Kind::Empty));
}

} // verus!
