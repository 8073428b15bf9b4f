//! Stasis: sand or gravel that rests on stone, with stone below it on both
//! diagonals, never moves.

use vstd::prelude::*;
use crate::grid::Grid;
use crate::material::Kind;
use crate::rules::Draws;
use crate::scan::{
    lemma_destination_in_bounds, lemma_tick_is_walk, lemma_tick_shape, lemma_visit_effect,
    lemma_visit_shape, lemma_walk_row, lemma_walk_step,
};

verus! {

impl Grid {
    /// Whether `(x, y)` holds `kind`, which is sand or gravel, and the three
    /// cells below it, straight and on both diagonals, hold stone.
    pub open spec fn resting(self, x: int, y: int, kind: Kind) -> bool {
        &&& kind == Kind::Sand || kind == Kind::Gravel
        &&& self.holds(x, y, kind)
        &&& self.holds(x - 1, y + 1, Kind::Stone)
        &&& self.holds(x, y + 1, Kind::Stone)
        &&& self.holds(x + 1, y + 1, Kind::Stone)
    }
}

/// No visit of any cell moves a resting particle or the stone under it.
pub proof fn lemma_visit_keeps_resting(
    g: Grid,
    vx: int,
    vy: int,
    draws: Draws,
    x: int,
    y: int,
    kind: Kind,
)
    requires
        g.shaped(),
        g.in_bounds(vx, vy),
        g.resting(x, y, kind),
    ensures
        g.visit(vx, vy, draws).resting(x, y, kind),
{
    lemma_visit_effect(g, vx, vy, draws);
    lemma_destination_in_bounds(g, vx, vy, draws);
    lemma_visit_shape(g, vx, vy, draws);
    let after = g.visit(vx, vy, draws);
    assert(after.at(x, y).kind == g.at(x, y).kind);
    assert(after.at(x - 1, y + 1).kind == g.at(x - 1, y + 1).kind);
    assert(after.at(x, y + 1).kind == g.at(x, y + 1).kind);
    assert(after.at(x + 1, y + 1).kind == g.at(x + 1, y + 1).kind);
}

/// However far a tick has walked, a resting particle is where it was.
proof fn lemma_walk_keeps_resting(
    g: Grid,
    draws: Seq<Draws>,
    rows: nat,
    done: nat,
    x: int,
    y: int,
    kind: Kind,
)
    requires
        g.shaped(),
        g.resting(x, y, kind),
        rows < g.height && done <= g.width || rows == g.height && done == 0,
    ensures
        g.walk(draws, rows, done).resting(x, y, kind),
    decreases rows, done,
{
    if done > 0 {
        let prior = (done - 1) as nat;
        lemma_walk_keeps_resting(g, draws, rows, prior, x, y, kind);
        lemma_walk_step(g, draws, rows, prior);
        let vx = g.column(prior as int);
        let vy = g.height - 1 - rows;
        lemma_visit_keeps_resting(
            g.walk(draws, rows, prior),
            vx,
            vy,
            draws[g.index(vx, vy)],
            x,
            y,
            kind,
        );
    } else if rows > 0 {
        let below = (rows - 1) as nat;
        lemma_walk_keeps_resting(g, draws, below, g.width, x, y, kind);
        lemma_walk_row(g, draws, below);
    }
}

/// A resting particle is still resting in its cell after a tick, whatever
/// was drawn.
pub proof fn lemma_tick_keeps_resting(g: Grid, draws: Seq<Draws>, x: int, y: int, kind: Kind)
    requires
        g.shaped(),
        g.resting(x, y, kind),
    ensures
        g.tick(draws).resting(x, y, kind),
{
    lemma_tick_is_walk(g, draws);
    lemma_walk_keeps_resting(g.flip(), draws, g.height, 0, x, y, kind);
}

/// Stasis: a resting particle is still resting in its cell after any number
/// of ticks, whatever was drawn in them.
pub proof fn lemma_resting_forever(g: Grid, ticks: Seq<Seq<Draws>>, x: int, y: int, kind: Kind)
    requires
        g.shaped(),
        g.resting(x, y, kind),
    ensures
        g.run(ticks).shaped(),
        g.run(ticks).resting(x, y, kind),
    decreases ticks.len(),
{
    if ticks.len() > 0 {
        lemma_resting_forever(g, ticks.drop_last(), x, y, kind);
        lemma_tick_shape(g.run(ticks.drop_last()), ticks.last());
        lemma_tick_keeps_resting(g.run(ticks.drop_last()), ticks.last(), x, y, kind);
    }
}

} // verus!
