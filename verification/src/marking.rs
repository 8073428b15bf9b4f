//! The markers after a tick: every particle carries the tick's parity, so
//! that none is moved twice in one tick, and a grid stays well formed.

use vstd::prelude::*;
use crate::grid::{lemma_index_covers, lemma_index_in_range, Grid};
use crate::material::Kind;
use crate::rules::Draws;
use crate::scan::{
    lemma_destination_in_bounds, lemma_sweep_shape, lemma_tick_is_walk, lemma_tick_shape,
    lemma_visit_effect, lemma_visit_shape, lemma_walk_row, lemma_walk_step,
};

verus! {

impl Grid {
    /// Whether every particle in a cell that `walk` has visited carries the
    /// tick's parity.
    pub open spec fn settled(self, base: Grid, rows: nat, done: nat) -> bool {
        forall|x: int, y: int|
            self.in_bounds(x, y) && base.walked(x, y, rows, done) && (#[trigger] self.at(
                x,
                y,
            )).kind != Kind::Empty ==> self.at(x, y).touched == self.clock
    }

    /// Whether the visit of `(x, y)` hands an unmarked cell back: the particle
    /// there moves, and the contents that it is exchanged with do not carry
    /// the tick's parity. Water that steps sideways, ahead of the walk, into a
    /// cell that was not visited yet does so.
    pub open spec fn strands(self, x: int, y: int, draws: Draws) -> bool {
        &&& self.at(x, y).touched != self.clock
        &&& self.destination(x, y, draws) matches Some((dx, dy))
        &&& self.at(dx, dy).touched != self.clock
    }

    /// Whether the visit that `walk` makes after `rows` rows and `done` cells
    /// hands an unmarked cell back.
    pub open spec fn strands_at(self, draws: Seq<Draws>, rows: nat, done: nat) -> bool {
        self.walk(draws, rows, done).strands(
            self.column(done as int),
            self.height - 1 - rows,
            draws[self.index(self.column(done as int), self.height - 1 - rows)],
        )
    }

    /// Whether one of the visits that `walk` has made handed an unmarked cell
    /// back.
    pub open spec fn stranded(self, draws: Seq<Draws>, rows: nat, done: nat) -> bool {
        exists|r: nat, c: nat|
            r < self.height && c < self.width && (r < rows || (r == rows && c < done))
                && #[trigger] self.strands_at(draws, r, c)
    }

    /// Whether every cell that `walk` has visited carries the tick's parity.
    pub open spec fn all_marked(self, base: Grid, rows: nat, done: nat) -> bool {
        forall|x: int, y: int|
            self.in_bounds(x, y) && base.walked(x, y, rows, done) ==> (#[trigger] self.at(
                x,
                y,
            )).touched == self.clock
    }

    /// Whether some cell that `walk` has visited does not carry the tick's
    /// parity.
    pub open spec fn some_unmarked(self, base: Grid, rows: nat, done: nat) -> bool {
        exists|x: int, y: int|
            self.in_bounds(x, y) && base.walked(x, y, rows, done) && (#[trigger] self.at(
                x,
                y,
            )).touched != self.clock
    }

    /// Whether one of the visits of the tick hands an unmarked cell back.
    pub open spec fn tick_strands(self, draws: Seq<Draws>) -> bool {
        self.flip().stranded(draws, self.height, 0)
    }

    /// Whether no cell of the grid holds water.
    pub open spec fn dry(self) -> bool {
        forall|x: int, y: int| self.in_bounds(x, y) ==> (#[trigger] self.at(x, y)).kind != Kind::Water
    }

}

/// A particle is handled once in a tick: after the visit that marked it,
/// whether it moved or stayed, a visit of the cell where it now is changes
/// nothing, whatever is drawn.
pub proof fn lemma_visited_particle_rests(g: Grid, x: int, y: int, draws: Draws, later: Draws)
    requires
        g.shaped(),
        g.in_bounds(x, y),
        g.at(x, y).touched != g.clock,
    ensures
        match g.destination(x, y, draws) {
            Some((dx, dy)) => g.visit(x, y, draws).visit(dx, dy, later) == g.visit(x, y, draws),
            None => g.visit(x, y, draws).visit(x, y, later) == g.visit(x, y, draws),
        },
{
    lemma_visit_effect(g, x, y, draws);
    lemma_destination_in_bounds(g, x, y, draws);
    lemma_visit_shape(g, x, y, draws);
    let after = g.visit(x, y, draws);
    match g.destination(x, y, draws) {
        Some((dx, dy)) => {
            assert(after.at(dx, dy).touched == after.clock);
        },
        None => {
            assert(after.at(x, y).touched == after.clock);
        },
    }
}

/// A visit of the next cell of the walk keeps the visited cells' particles
/// marked.
proof fn lemma_visit_settles(base: Grid, g: Grid, rows: nat, done: nat, draws: Draws)
    requires
        g.shaped(),
        g.framed_as(base),
        rows < base.height,
        done < base.width,
        g.settled(base, rows, done),
    ensures
        g.visit(base.column(done as int), base.height - 1 - rows, draws).settled(
            base,
            rows,
            done + 1,
        ),
{
    let x = base.column(done as int);
    let y = base.height - 1 - rows;
    let after = g.visit(x, y, draws);
    lemma_visit_effect(g, x, y, draws);
    lemma_destination_in_bounds(g, x, y, draws);
    lemma_visit_shape(g, x, y, draws);
    assert forall|px: int, py: int|
        after.in_bounds(px, py) && base.walked(px, py, rows, done + 1) && (#[trigger] after.at(
            px,
            py,
        )).kind != Kind::Empty implies after.at(px, py).touched == after.clock by {
        if !(px == x && py == y) {
            assert(base.walked(px, py, rows, done));
        }
        if g.at(x, y).touched != g.clock {
            match g.destination(x, y, draws) {
                Some((dx, dy)) => {
                    if px == x && py == y {
                        assert(after.at(px, py) == g.at(dx, dy));
                        assert(base.walked(dx, dy, rows, done));
                    } else if !(px == dx && py == dy) {
                        assert(after.at(px, py) == g.at(px, py));
                    }
                },
                None => {
                    if !(px == x && py == y) {
                        assert(after.at(px, py) == g.at(px, py));
                    }
                },
            }
        } else {
            assert(after.at(px, py) == g.at(px, py));
        }
    }
}

/// However far a tick has walked, the particles in the cells that it has
/// visited are marked.
proof fn lemma_walk_settles(g: Grid, draws: Seq<Draws>, rows: nat, done: nat)
    requires
        g.shaped(),
        rows < g.height && done <= g.width || rows == g.height && done == 0,
    ensures
        g.walk(draws, rows, done).settled(g, rows, done),
        g.walk(draws, rows, done).framed_as(g),
        g.walk(draws, rows, done).shaped(),
    decreases rows, done,
{
    if done > 0 {
        let prior = (done - 1) as nat;
        lemma_walk_settles(g, draws, rows, prior);
        lemma_walk_step(g, draws, rows, prior);
        let x = g.column(prior as int);
        let y = g.height - 1 - rows;
        lemma_visit_settles(g, g.walk(draws, rows, prior), rows, prior, draws[g.index(x, y)]);
        lemma_visit_shape(g.walk(draws, rows, prior), x, y, draws[g.index(x, y)]);
    } else if rows > 0 {
        let below = (rows - 1) as nat;
        lemma_walk_settles(g, draws, below, g.width);
        lemma_walk_row(g, draws, below);
        let w = g.walk(draws, rows, 0);
        assert forall|x: int, y: int|
            w.in_bounds(x, y) && g.walked(x, y, rows, 0) && (#[trigger] w.at(x, y)).kind
                != Kind::Empty implies w.at(x, y).touched == w.clock by {
            assert(g.walked(x, y, below, g.width));
        }
    }
}

/// After a tick, whatever was drawn, every particle carries the new parity:
/// the grid is well formed, whatever markers it had before.
pub proof fn lemma_tick_marks_particles(g: Grid, draws: Seq<Draws>)
    requires
        g.shaped(),
    ensures
        g.tick(draws).well_formed(),
{
    lemma_tick_is_walk(g, draws);
    lemma_tick_shape(g, draws);
    lemma_walk_settles(g.flip(), draws, g.height, 0);
    let after = g.tick(draws);
    assert forall|i: int|
        0 <= i < after.cells.len() && (#[trigger] after.cells[i]).kind
            != Kind::Empty implies after.cells[i].touched == after.clock by {
        lemma_index_covers(after, i);
        let x = i % (after.width as int);
        let y = i / (after.width as int);
        assert(g.flip().walked(x, y, g.height, 0));
        assert(after.at(x, y) == after.cells[i]);
    }
}

/// A visit that hands no unmarked cell back keeps the visited cells marked.
proof fn lemma_visit_marks(base: Grid, g: Grid, rows: nat, done: nat, draws: Draws)
    requires
        g.shaped(),
        g.framed_as(base),
        rows < base.height,
        done < base.width,
        g.all_marked(base, rows, done),
        !g.strands(base.column(done as int), base.height - 1 - rows, draws),
    ensures
        g.visit(base.column(done as int), base.height - 1 - rows, draws).all_marked(
            base,
            rows,
            done + 1,
        ),
{
    let x = base.column(done as int);
    let y = base.height - 1 - rows;
    let after = g.visit(x, y, draws);
    lemma_visit_effect(g, x, y, draws);
    lemma_destination_in_bounds(g, x, y, draws);
    lemma_visit_shape(g, x, y, draws);
    assert forall|px: int, py: int|
        after.in_bounds(px, py) && base.walked(px, py, rows, done + 1) implies (#[trigger] after.at(
            px,
            py,
        )).touched == after.clock by {
        if !(px == x && py == y) {
            assert(base.walked(px, py, rows, done));
            assert(g.at(px, py).touched == g.clock);
        }
    }
}

/// A visit that hands an unmarked cell back leaves it among the visited
/// cells, and a visit keeps an unmarked cell among the visited cells.
proof fn lemma_visit_keeps_unmarked(base: Grid, g: Grid, rows: nat, done: nat, draws: Draws)
    requires
        g.shaped(),
        g.framed_as(base),
        rows < base.height,
        done < base.width,
        g.some_unmarked(base, rows, done) || g.strands(
            base.column(done as int),
            base.height - 1 - rows,
            draws,
        ),
    ensures
        g.visit(base.column(done as int), base.height - 1 - rows, draws).some_unmarked(
            base,
            rows,
            done + 1,
        ),
{
    let x = base.column(done as int);
    let y = base.height - 1 - rows;
    let after = g.visit(x, y, draws);
    lemma_visit_effect(g, x, y, draws);
    lemma_destination_in_bounds(g, x, y, draws);
    lemma_visit_shape(g, x, y, draws);
    assert(base.walked(x, y, rows, done + 1));
    if g.strands(x, y, draws) {
        assert(after.at(x, y).touched != after.clock);
    } else {
        let (px, py) = choose|px: int, py: int|
            g.in_bounds(px, py) && base.walked(px, py, rows, done) && (#[trigger] g.at(
                px,
                py,
            )).touched != g.clock;
        assert(base.walked(px, py, rows, done + 1));
        if g.at(x, y).touched != g.clock && g.destination(x, y, draws) == Some((px, py)) {
            assert(after.at(x, y).touched != after.clock);
        } else {
            assert(after.at(px, py) == g.at(px, py));
        }
    }
}

/// The visits of a row up to one more cell have handed an unmarked cell back
/// if those before it have, or if the visit of that cell does.
proof fn lemma_stranded_step(g: Grid, draws: Seq<Draws>, rows: nat, done: nat)
    requires
        rows < g.height,
        done < g.width,
    ensures
        g.stranded(draws, rows, done + 1) <==> g.stranded(draws, rows, done) || g.strands_at(
            draws,
            rows,
            done,
        ),
{
    if g.stranded(draws, rows, done + 1) {
        let (r, c) = choose|r: nat, c: nat|
            r < g.height && c < g.width && (r < rows || (r == rows && c < done + 1))
                && #[trigger] g.strands_at(draws, r, c);
        if !(r == rows && c == done) {
            assert(g.stranded(draws, rows, done));
        }
    }
    if g.stranded(draws, rows, done) {
        let (r, c) = choose|r: nat, c: nat|
            r < g.height && c < g.width && (r < rows || (r == rows && c < done))
                && #[trigger] g.strands_at(draws, r, c);
        assert(g.stranded(draws, rows, done + 1));
    }
    if g.strands_at(draws, rows, done) {
        assert(g.stranded(draws, rows, done + 1));
    }
}

/// The visits up to the start of a row are those up to the end of the row
/// below it.
proof fn lemma_stranded_row(g: Grid, draws: Seq<Draws>, rows: nat)
    requires
        rows < g.height,
    ensures
        g.stranded(draws, rows + 1, 0) <==> g.stranded(draws, rows, g.width),
{
    if g.stranded(draws, rows + 1, 0) {
        let (r, c) = choose|r: nat, c: nat|
            r < g.height && c < g.width && (r < rows + 1 || (r == rows + 1 && c < 0))
                && #[trigger] g.strands_at(draws, r, c);
        assert(g.stranded(draws, rows, g.width));
    }
    if g.stranded(draws, rows, g.width) {
        let (r, c) = choose|r: nat, c: nat|
            r < g.height && c < g.width && (r < rows || (r == rows && c < g.width))
                && #[trigger] g.strands_at(draws, r, c);
        assert(g.stranded(draws, rows + 1, 0));
    }
}

/// As long as no visit has handed an unmarked cell back, every visited cell
/// is marked; once one has, some visited cell is not.
proof fn lemma_walk_marks(g: Grid, draws: Seq<Draws>, rows: nat, done: nat)
    requires
        g.shaped(),
        rows < g.height && done <= g.width || rows == g.height && done == 0,
    ensures
        !g.stranded(draws, rows, done) ==> g.walk(draws, rows, done).all_marked(g, rows, done),
        g.stranded(draws, rows, done) ==> g.walk(draws, rows, done).some_unmarked(g, rows, done),
    decreases rows, done,
{
    let w = g.walk(draws, rows, done);
    if done > 0 {
        let prior = (done - 1) as nat;
        lemma_walk_marks(g, draws, rows, prior);
        lemma_walk_step(g, draws, rows, prior);
        lemma_stranded_step(g, draws, rows, prior);
        let x = g.column(prior as int);
        let y = g.height - 1 - rows;
        let before = g.walk(draws, rows, prior);
        if g.stranded(draws, rows, done) {
            lemma_visit_keeps_unmarked(g, before, rows, prior, draws[g.index(x, y)]);
        } else {
            lemma_visit_marks(g, before, rows, prior, draws[g.index(x, y)]);
        }
    } else if rows > 0 {
        let below = (rows - 1) as nat;
        lemma_walk_marks(g, draws, below, g.width);
        lemma_walk_row(g, draws, below);
        lemma_stranded_row(g, draws, below);
        lemma_sweep_shape(g, draws, rows);
        if g.stranded(draws, rows, 0) {
            let (px, py) = choose|px: int, py: int|
                w.in_bounds(px, py) && g.walked(px, py, below, g.width) && (#[trigger] w.at(
                    px,
                    py,
                )).touched != w.clock;
            assert(g.walked(px, py, rows, 0));
        } else {
            assert forall|x: int, y: int|
                w.in_bounds(x, y) && g.walked(x, y, rows, 0) implies (#[trigger] w.at(
                    x,
                    y,
                )).touched == w.clock by {
                assert(g.walked(x, y, below, g.width));
            }
        }
    } else {
        assert(!g.stranded(draws, 0, 0));
    }
}

/// The markers after a tick. Every cell carries the new parity, if and only
/// if no visit of the tick handed an unmarked cell back.
pub proof fn lemma_tick_marks_cells(g: Grid, draws: Seq<Draws>)
    requires
        g.shaped(),
    ensures
        g.tick_strands(draws) <==> exists|i: int|
            0 <= i < g.tick(draws).cells.len() && (#[trigger] g.tick(draws).cells[i]).touched
                != g.tick(draws).clock,
{
    let start = g.flip();
    let after = g.tick(draws);
    lemma_tick_is_walk(g, draws);
    lemma_tick_shape(g, draws);
    lemma_walk_marks(start, draws, g.height, 0);
    if start.stranded(draws, g.height, 0) {
        let (px, py) = choose|px: int, py: int|
            after.in_bounds(px, py) && start.walked(px, py, g.height, 0) && (#[trigger] after.at(
                px,
                py,
            )).touched != after.clock;
        lemma_index_in_range(after, px, py);
        assert(after.cells[after.index(px, py)].touched != after.clock);
    } else {
        assert forall|i: int| 0 <= i < after.cells.len() implies (#[trigger] after.cells[i]).touched
            == after.clock by {
            lemma_index_covers(after, i);
            let x = i % (after.width as int);
            let y = i / (after.width as int);
            assert(start.walked(x, y, g.height, 0));
            assert(after.at(x, y) == after.cells[i]);
        }
    }
}

/// On a grid without water no visit of the walk hands an unmarked cell
/// back, and the grid stays without water.
proof fn lemma_dry_walk(g: Grid, draws: Seq<Draws>, rows: nat, done: nat)
    requires
        g.shaped(),
        g.dry(),
        rows < g.height && done <= g.width || rows == g.height && done == 0,
    ensures
        g.walk(draws, rows, done).dry(),
        !g.stranded(draws, rows, done),
    decreases rows, done,
{
    if done > 0 {
        let prior = (done - 1) as nat;
        lemma_dry_walk(g, draws, rows, prior);
        lemma_walk_marks(g, draws, rows, prior);
        lemma_walk_step(g, draws, rows, prior);
        let x = g.column(prior as int);
        let y = g.height - 1 - rows;
        let before = g.walk(draws, rows, prior);
        let drawn = draws[g.index(x, y)];
        let after = before.visit(x, y, drawn);
        lemma_visit_effect(before, x, y, drawn);
        lemma_destination_in_bounds(before, x, y, drawn);
        lemma_visit_shape(before, x, y, drawn);
        assert(before.at(x, y).kind != Kind::Water);
        if before.strands(x, y, drawn) {
            let (dx, dy) = before.destination(x, y, drawn).unwrap();
            assert(g.walked(dx, dy, rows, prior));
            assert(before.at(dx, dy).touched == before.clock);
        }
        assert forall|px: int, py: int| after.in_bounds(px, py) implies (#[trigger] after.at(
            px,
            py,
        )).kind != Kind::Water by {
            assert(before.at(px, py).kind != Kind::Water);
            if before.at(x, y).touched != before.clock {
                match before.destination(x, y, drawn) {
                    Some((dx, dy)) => {
                        assert(before.at(dx, dy).kind != Kind::Water);
                    },
                    None => {},
                }
            }
        }
        lemma_stranded_step(g, draws, rows, prior);
    } else if rows > 0 {
        let below = (rows - 1) as nat;
        lemma_dry_walk(g, draws, below, g.width);
        lemma_walk_row(g, draws, below);
        lemma_stranded_row(g, draws, below);
    }
}

/// On a grid without water, a tick leaves every cell with the new parity, and
/// no water.
pub proof fn lemma_dry_tick_marks_cells(g: Grid, draws: Seq<Draws>)
    requires
        g.shaped(),
        g.dry(),
    ensures
        g.tick(draws).dry(),
        forall|i: int|
            0 <= i < g.tick(draws).cells.len() ==> (#[trigger] g.tick(draws).cells[i]).touched
                == g.tick(draws).clock,
{
    let start = g.flip();
    assert(start.dry()) by {
        assert forall|x: int, y: int| start.in_bounds(x, y) implies (#[trigger] start.at(
            x,
            y,
        )).kind != Kind::Water by {
            assert(g.at(x, y).kind != Kind::Water);
        }
    }
    lemma_tick_is_walk(g, draws);
    lemma_dry_walk(start, draws, g.height, 0);
    lemma_tick_marks_cells(g, draws);
}

} // verus!
