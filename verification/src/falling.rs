//! Straight fall: a particle of sand alone on the grid falls one row in each
//! tick, in its own column, as long as a row lies below it.

use vstd::prelude::*;
use crate::grid::{lemma_index_in_range, Grid};
use crate::marking::lemma_tick_marks_particles;
use crate::material::Kind;
use crate::rules::Draws;
use crate::scan::{
    lemma_destination_in_bounds, lemma_tick_is_walk, lemma_tick_shape, lemma_visit_effect,
    lemma_visit_shape, lemma_walk_row, lemma_walk_step,
};

verus! {

impl Grid {
    /// Whether the cell at `(x, y)` holds sand and every other cell is empty.
    pub open spec fn lone_sand(self, x: int, y: int) -> bool {
        &&& self.holds(x, y, Kind::Sand)
        &&& forall|px: int, py: int|
            self.in_bounds(px, py) && !(px == x && py == y) ==> (#[trigger] self.at(px, py)).kind
                == Kind::Empty
    }

    /// What holds of a lone particle of sand while its tick walks the grid:
    /// until its cell is visited it lies unmarked where it was, and from then
    /// on one row lower.
    pub open spec fn falling(self, base: Grid, x: int, y: int, rows: nat, done: nat) -> bool {
        if base.walked(x, y, rows, done) {
            self.lone_sand(x, y + 1)
        } else {
            self.lone_sand(x, y) && self.at(x, y).touched != self.clock
        }
    }
}

/// The visit of the next cell of the walk lets a lone particle of sand fall
/// if the cell is its own, and changes no cell's material otherwise.
proof fn lemma_visit_lets_fall(
    base: Grid,
    g: Grid,
    rows: nat,
    done: nat,
    draws: Draws,
    x: int,
    y: int,
)
    requires
        g.shaped(),
        g.framed_as(base),
        rows < base.height,
        done < base.width,
        base.in_bounds(x, y + 1),
        g.falling(base, x, y, rows, done),
    ensures
        g.visit(base.column(done as int), base.height - 1 - rows, draws).falling(
            base,
            x,
            y,
            rows,
            done + 1,
        ),
{
    let vx = base.column(done as int);
    let vy = base.height - 1 - rows;
    let after = g.visit(vx, vy, draws);
    lemma_visit_effect(g, vx, vy, draws);
    lemma_destination_in_bounds(g, vx, vy, draws);
    lemma_visit_shape(g, vx, vy, draws);
    if vx == x && vy == y {
        assert(!base.walked(x, y, rows, done));
        assert(g.destination(x, y, draws) == Some((x, y + 1)));
        assert(after.at(x, y + 1).kind == Kind::Sand);
        assert forall|px: int, py: int|
            after.in_bounds(px, py) && !(px == x && py == y + 1) implies (#[trigger] after.at(
                px,
                py,
            )).kind == Kind::Empty by {
            if px == x && py == y {
                assert(g.at(x, y + 1).kind == Kind::Empty);
            } else {
                assert(g.at(px, py).kind == Kind::Empty);
            }
        }
    } else if base.walked(x, y, rows, done) {
        assert(g.at(vx, vy).kind == Kind::Empty);
        assert(g.destination(vx, vy, draws) is None);
        assert(after.at(x, y + 1).kind == g.at(x, y + 1).kind);
        assert forall|px: int, py: int|
            after.in_bounds(px, py) && !(px == x && py == y + 1) implies (#[trigger] after.at(
                px,
                py,
            )).kind == Kind::Empty by {
            assert(g.at(px, py).kind == Kind::Empty);
        }
    } else {
        assert(g.at(vx, vy).kind == Kind::Empty);
        assert(g.destination(vx, vy, draws) is None);
        assert(after.at(x, y) == g.at(x, y));
        assert forall|px: int, py: int|
            after.in_bounds(px, py) && !(px == x && py == y) implies (#[trigger] after.at(
                px,
                py,
            )).kind == Kind::Empty by {
            assert(g.at(px, py).kind == Kind::Empty);
        }
    }
}

/// However far a tick has walked, a lone particle of sand is where `falling`
/// says.
proof fn lemma_walk_lets_fall(g: Grid, draws: Seq<Draws>, rows: nat, done: nat, x: int, y: int)
    requires
        g.shaped(),
        g.in_bounds(x, y + 1),
        g.lone_sand(x, y),
        g.at(x, y).touched != g.clock,
        rows < g.height && done <= g.width || rows == g.height && done == 0,
    ensures
        g.walk(draws, rows, done).falling(g, x, y, rows, done),
        g.walk(draws, rows, done).framed_as(g),
        g.walk(draws, rows, done).shaped(),
    decreases rows, done,
{
    if done > 0 {
        let prior = (done - 1) as nat;
        lemma_walk_lets_fall(g, draws, rows, prior, x, y);
        lemma_walk_step(g, draws, rows, prior);
        let vx = g.column(prior as int);
        let vy = g.height - 1 - rows;
        lemma_visit_lets_fall(g, g.walk(draws, rows, prior), rows, prior, draws[g.index(vx, vy)], x, y);
        lemma_visit_shape(g.walk(draws, rows, prior), vx, vy, draws[g.index(vx, vy)]);
    } else if rows > 0 {
        let below = (rows - 1) as nat;
        lemma_walk_lets_fall(g, draws, below, g.width, x, y);
        lemma_walk_row(g, draws, below);
        assert(g.walked(x, y, rows, 0) == g.walked(x, y, below, g.width));
    }
}

/// A lone particle of sand with a row below it is one row lower after a
/// tick, in its column, whatever was drawn.
pub proof fn lemma_lone_sand_falls(g: Grid, draws: Seq<Draws>, x: int, y: int)
    requires
        g.well_formed(),
        g.lone_sand(x, y),
        g.in_bounds(x, y + 1),
    ensures
        g.tick(draws).well_formed(),
        g.tick(draws).lone_sand(x, y + 1),
{
    let start = g.flip();
    lemma_index_in_range(g, x, y);
    assert(g.at(x, y).touched == g.clock);
    assert(start.lone_sand(x, y)) by {
        assert forall|px: int, py: int|
            start.in_bounds(px, py) && !(px == x && py == y) implies (#[trigger] start.at(
                px,
                py,
            )).kind == Kind::Empty by {
            assert(g.at(px, py).kind == Kind::Empty);
        }
    }
    lemma_tick_is_walk(g, draws);
    lemma_walk_lets_fall(start, draws, g.height, 0, x, y);
    lemma_tick_marks_particles(g, draws);
}

/// Straight fall: a lone particle of sand at `(x, y)` is at `(x, y + n)`
/// after `n` ticks, whatever was drawn in them, if the grid has that row.
pub proof fn lemma_lone_sand_falls_straight(g: Grid, ticks: Seq<Seq<Draws>>, x: int, y: int)
    requires
        g.well_formed(),
        g.lone_sand(x, y),
        g.in_bounds(x, y + ticks.len()),
    ensures
        g.run(ticks).well_formed(),
        g.run(ticks).lone_sand(x, y + ticks.len()),
        g.run(ticks).width == g.width,
        g.run(ticks).height == g.height,
    decreases ticks.len(),
{
    if ticks.len() > 0 {
        let earlier = ticks.drop_last();
        lemma_lone_sand_falls_straight(g, earlier, x, y);
        lemma_lone_sand_falls(g.run(earlier), ticks.last(), x, y + earlier.len());
        lemma_tick_shape(g.run(earlier), ticks.last());
    }
}

} // verus!
