//! What the walk over the cells keeps fixed: the grid's shape and parity, and
//! that a visit reads no draws but its own.

use vstd::prelude::*;
use crate::grid::{
    lemma_exchange_at, lemma_index_in_range, lemma_index_injective, lemma_put_at, Grid, Particle,
};
use crate::material::Kind;
use crate::rules::Draws;

verus! {

impl Grid {
    /// The grid after the lowest `rows` rows and the first `done` cells of
    /// the row above them were visited.
    pub open spec fn walk(self, draws: Seq<Draws>, rows: nat, done: nat) -> Grid {
        self.sweep(draws, rows).sweep_row(draws, self.height - 1 - rows, done)
    }

    /// Whether the cell at `(x, y)` is among those that `walk` has visited.
    pub open spec fn walked(self, x: int, y: int, rows: nat, done: nat) -> bool {
        y > self.height - 1 - rows || (y == self.height - 1 - rows && self.column(x) < done)
    }

    /// Whether two grids have the same size, parity and policy.
    pub open spec fn framed_as(self, other: Grid) -> bool {
        &&& self.width == other.width
        &&& self.height == other.height
        &&& self.clock == other.clock
        &&& self.policy == other.policy
        &&& self.shaped() == other.shaped()
    }
}

/// A particle moves only to another cell on the grid, in its own row or the
/// row below, and only into an empty cell; but sand and gravel also sink into
/// water below them.
pub proof fn lemma_destination_in_bounds(g: Grid, x: int, y: int, draws: Draws)
    requires
        g.in_bounds(x, y),
    ensures
        g.destination(x, y, draws) matches Some((dx, dy)) ==> {
            &&& g.in_bounds(dx, dy)
            &&& (dx, dy) != (x, y)
            &&& (dy == y || dy == y + 1)
            &&& (g.at(x, y).kind != Kind::Water ==> dy == y + 1)
            &&& (g.at(dx, dy).kind == Kind::Empty || (g.at(dx, dy).kind == Kind::Water && dy == y
                + 1 && (g.at(x, y).kind == Kind::Sand || g.at(x, y).kind == Kind::Gravel)))
        },
{
}

/// Where a particle goes does not depend on the cells' markers.
pub proof fn lemma_mark_keeps_destination(g: Grid, x: int, y: int, mx: int, my: int, draws: Draws)
    requires
        g.shaped(),
        g.in_bounds(x, y),
        g.in_bounds(mx, my),
    ensures
        g.mark(mx, my).destination(x, y, draws) == g.destination(x, y, draws),
{
    let marked = g.mark(mx, my);
    assert forall|px: int, py: int, kind: Kind|
        marked.holds(px, py, kind) == g.holds(px, py, kind) by {
        if g.in_bounds(px, py) {
            lemma_put_at(g, mx, my, Particle { kind: g.at(mx, my).kind, touched: g.clock }, px, py);
        }
    }
    lemma_put_at(g, mx, my, Particle { kind: g.at(mx, my).kind, touched: g.clock }, x, y);
}

/// What a visit does to each cell: nothing, if the visited cell carries the
/// tick's parity; otherwise it marks the visited cell, and exchanges it with
/// its particle's destination, if there is one.
pub proof fn lemma_visit_effect(g: Grid, x: int, y: int, draws: Draws)
    requires
        g.shaped(),
        g.in_bounds(x, y),
    ensures
        g.at(x, y).touched == g.clock ==> g.visit(x, y, draws) == g,
        g.at(x, y).touched != g.clock ==> match g.destination(x, y, draws) {
            Some((dx, dy)) => forall|px: int, py: int|
                g.in_bounds(px, py) ==> #[trigger] g.visit(x, y, draws).at(px, py) == if px == dx
                    && py == dy {
                    Particle { kind: g.at(x, y).kind, touched: g.clock }
                } else if px == x && py == y {
                    g.at(dx, dy)
                } else {
                    g.at(px, py)
                },
            None => forall|px: int, py: int|
                g.in_bounds(px, py) ==> #[trigger] g.visit(x, y, draws).at(px, py) == if px == x
                    && py == y {
                    Particle { kind: g.at(x, y).kind, touched: g.clock }
                } else {
                    g.at(px, py)
                },
        },
{
    if g.at(x, y).touched != g.clock {
        let moved = Particle { kind: g.at(x, y).kind, touched: g.clock };
        let marked = g.mark(x, y);
        lemma_mark_keeps_destination(g, x, y, x, y, draws);
        lemma_destination_in_bounds(g, x, y, draws);
        lemma_put_shape(g, x, y, moved);
        match g.destination(x, y, draws) {
            Some((dx, dy)) => {
                assert forall|px: int, py: int| g.in_bounds(px, py) implies #[trigger] g.visit(
                    x,
                    y,
                    draws,
                ).at(px, py) == if px == dx && py == dy {
                    moved
                } else if px == x && py == y {
                    g.at(dx, dy)
                } else {
                    g.at(px, py)
                } by {
                    lemma_exchange_at(marked, x, y, dx, dy, px, py);
                    lemma_put_at(g, x, y, moved, px, py);
                    lemma_put_at(g, x, y, moved, dx, dy);
                    lemma_put_at(g, x, y, moved, x, y);
                }
            },
            None => {
                assert forall|px: int, py: int| g.in_bounds(px, py) implies #[trigger] g.visit(
                    x,
                    y,
                    draws,
                ).at(px, py) == if px == x && py == y {
                    moved
                } else {
                    g.at(px, py)
                } by {
                    lemma_put_at(g, x, y, moved, px, py);
                }
            },
        }
    }
}

/// Replacing the contents of a cell on the grid keeps the grid's shape.
pub proof fn lemma_put_shape(g: Grid, x: int, y: int, particle: Particle)
    requires
        g.shaped(),
        g.in_bounds(x, y),
    ensures
        g.put(x, y, particle).shaped(),
        g.put(x, y, particle).framed_as(g),
{
    lemma_index_in_range(g, x, y);
}

/// A visit keeps the grid's shape and parity.
pub proof fn lemma_visit_shape(g: Grid, x: int, y: int, draws: Draws)
    requires
        g.shaped(),
        g.in_bounds(x, y),
    ensures
        g.visit(x, y, draws).shaped(),
        g.visit(x, y, draws).framed_as(g),
{
    lemma_index_in_range(g, x, y);
    let marked = g.mark(x, y);
    lemma_destination_in_bounds(marked, x, y, draws);
    match marked.destination(x, y, draws) {
        Some((dx, dy)) => {
            lemma_index_in_range(marked, dx, dy);
        },
        None => {},
    }
}

/// The columns of a row are visited within the row.
pub proof fn lemma_column_in_row(g: Grid, j: int)
    requires
        0 <= j < g.width,
    ensures
        0 <= g.column(j) < g.width,
{
}

/// Visiting part of a row keeps the grid's shape and parity.
pub proof fn lemma_sweep_row_shape(g: Grid, draws: Seq<Draws>, y: int, done: nat)
    requires
        g.shaped(),
        0 <= y < g.height,
        done <= g.width,
    ensures
        g.sweep_row(draws, y, done).shaped(),
        g.sweep_row(draws, y, done).framed_as(g),
    decreases done,
{
    if done > 0 {
        lemma_sweep_row_shape(g, draws, y, (done - 1) as nat);
        let before = g.sweep_row(draws, y, (done - 1) as nat);
        let x = g.column(done - 1);
        lemma_visit_shape(before, x, y, draws[g.index(x, y)]);
    }
}

/// Visiting the lowest rows keeps the grid's shape and parity.
pub proof fn lemma_sweep_shape(g: Grid, draws: Seq<Draws>, done: nat)
    requires
        g.shaped(),
        done <= g.height,
    ensures
        g.sweep(draws, done).shaped(),
        g.sweep(draws, done).framed_as(g),
    decreases done,
{
    if done > 0 {
        lemma_sweep_shape(g, draws, (done - 1) as nat);
        let before = g.sweep(draws, (done - 1) as nat);
        lemma_sweep_row_shape(before, draws, g.height - done, g.width);
    }
}

/// A tick keeps the grid's shape and policy, and inverts its parity.
pub proof fn lemma_tick_shape(g: Grid, draws: Seq<Draws>)
    requires
        g.shaped(),
    ensures
        g.tick(draws).shaped(),
        g.tick(draws).width == g.width,
        g.tick(draws).height == g.height,
        g.tick(draws).clock == !g.clock,
        g.tick(draws).policy == g.policy,
{
    lemma_sweep_shape(g.flip(), draws, g.height);
}

/// The visits of the first `done` cells of a row read only those cells' draws.
pub proof fn lemma_sweep_row_reads(g: Grid, first: Seq<Draws>, second: Seq<Draws>, y: int, done: nat)
    requires
        done <= g.width,
        forall|j: int|
            0 <= j < done ==> first[g.index(g.column(j), y)] == second[g.index(g.column(j), y)],
    ensures
        g.sweep_row(first, y, done) == g.sweep_row(second, y, done),
    decreases done,
{
    if done > 0 {
        lemma_sweep_row_reads(g, first, second, y, (done - 1) as nat);
    }
}

/// The visits of the lowest `done` rows read only those rows' draws.
pub proof fn lemma_sweep_reads(g: Grid, first: Seq<Draws>, second: Seq<Draws>, done: nat)
    requires
        g.shaped(),
        done <= g.height,
        forall|x: int, y: int|
            0 <= x < g.width && g.height - done <= y < g.height ==> first[g.index(x, y)]
                == second[g.index(x, y)],
    ensures
        g.sweep(first, done) == g.sweep(second, done),
    decreases done,
{
    if done > 0 {
        lemma_sweep_reads(g, first, second, (done - 1) as nat);
        let before = g.sweep(first, (done - 1) as nat);
        lemma_sweep_shape(g, first, (done - 1) as nat);
        let y = g.height - done;
        assert forall|j: int| 0 <= j < g.width implies first[before.index(before.column(j), y)]
            == second[before.index(before.column(j), y)] by {
            lemma_column_in_row(g, j);
            assert(before.index(before.column(j), y) == g.index(g.column(j), y));
        }
        lemma_sweep_row_reads(before, first, second, y, g.width);
    }
}

/// Changing the draws of a cell that was not visited yet changes nothing of
/// what the walk has made so far: `rows` full rows, and `done` cells of the
/// row above them.
pub proof fn lemma_walk_ignores_later_draws(
    g: Grid,
    draws: Seq<Draws>,
    rows: nat,
    done: nat,
    fresh: Draws,
)
    requires
        g.shaped(),
        rows < g.height,
        done < g.width,
        draws.len() == g.cells.len(),
    ensures
        ({
            let y = g.height - 1 - rows;
            let changed = draws.update(g.index(g.column(done as int), y), fresh);
            g.sweep(changed, rows).sweep_row(changed, y, done) == g.sweep(draws, rows).sweep_row(
                draws,
                y,
                done,
            )
        }),
{
    let y = g.height - 1 - rows;
    let x = g.column(done as int);
    let i = g.index(x, y);
    let changed = draws.update(i, fresh);
    lemma_index_in_range(g, x, y);
    assert forall|xx: int, yy: int|
        0 <= xx < g.width && g.height - rows <= yy < g.height implies changed[g.index(xx, yy)]
        == draws[g.index(xx, yy)] by {
        lemma_index_in_range(g, xx, yy);
        if g.index(xx, yy) == i {
            lemma_index_injective(g, xx, yy, x, y);
        }
    }
    lemma_sweep_reads(g, changed, draws, rows);
    let before = g.sweep(draws, rows);
    lemma_sweep_shape(g, draws, rows);
    assert forall|j: int| 0 <= j < done implies changed[before.index(before.column(j), y)]
        == draws[before.index(before.column(j), y)] by {
        let xx = before.column(j);
        lemma_index_in_range(g, xx, y);
        assert(before.index(xx, y) == g.index(xx, y));
        if g.index(xx, y) == i {
            lemma_index_injective(g, xx, y, x, y);
        }
    }
    lemma_sweep_row_reads(before, changed, draws, y, done);
}

/// A row is walked one visit after the other.
pub proof fn lemma_walk_step(g: Grid, draws: Seq<Draws>, rows: nat, done: nat)
    requires
        g.shaped(),
        rows < g.height,
        done < g.width,
    ensures
        g.walk(draws, rows, done).shaped(),
        g.walk(draws, rows, done).framed_as(g),
        g.in_bounds(g.column(done as int), g.height - 1 - rows),
        g.walk(draws, rows, done + 1) == g.walk(draws, rows, done).visit(
            g.column(done as int),
            g.height - 1 - rows,
            draws[g.index(g.column(done as int), g.height - 1 - rows)],
        ),
{
    lemma_sweep_shape(g, draws, rows);
    lemma_sweep_row_shape(g.sweep(draws, rows), draws, g.height - 1 - rows, done);
}

/// A row that was walked to its end is one more row visited.
pub proof fn lemma_walk_row(g: Grid, draws: Seq<Draws>, rows: nat)
    requires
        rows < g.height,
    ensures
        g.walk(draws, rows + 1, 0) == g.walk(draws, rows, g.width),
{
}

/// A tick inverts the parity and walks the whole grid.
pub proof fn lemma_tick_is_walk(g: Grid, draws: Seq<Draws>)
    ensures
        g.tick(draws) == g.flip().walk(draws, g.height, 0),
        g.walk(draws, 0, 0) == g,
{
}

} // verus!
