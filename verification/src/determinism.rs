//! Determinism: what a run of ticks leaves is a function of the grid that it
//! starts from and of the values that are drawn for the grid's cells.

use vstd::prelude::*;
use crate::grid::{lemma_index_in_range, Grid};
use crate::rules::Draws;
use crate::scan::{lemma_sweep_reads, lemma_tick_shape};

verus! {

/// A tick reads the draws of the grid's cells, and nothing else of `draws`.
pub proof fn lemma_tick_reads_cells(g: Grid, first: Seq<Draws>, second: Seq<Draws>)
    requires
        g.shaped(),
        forall|i: int| 0 <= i < g.cells.len() ==> first[i] == second[i],
    ensures
        g.tick(first) == g.tick(second),
{
    let start = g.flip();
    assert forall|x: int, y: int|
        0 <= x < start.width && 0 <= y < start.height implies first[start.index(
        x,
        y,
    )] == second[start.index(x, y)] by {
        lemma_index_in_range(start, x, y);
    }
    lemma_sweep_reads(start, first, second, start.height);
}

/// Two runs from one grid in which the same values are drawn, tick by tick
/// and cell by cell, leave the same grid.
pub proof fn lemma_run_determined(g: Grid, first: Seq<Seq<Draws>>, second: Seq<Seq<Draws>>)
    requires
        g.shaped(),
        first.len() == second.len(),
        forall|k: int, i: int|
            0 <= k < first.len() && 0 <= i < g.cells.len() ==> first[k][i] == second[k][i],
    ensures
        g.run(first) == g.run(second),
        g.run(first).shaped(),
        g.run(first).cells.len() == g.cells.len(),
        g.run(first).width == g.width,
        g.run(first).height == g.height,
    decreases first.len(),
{
    if first.len() > 0 {
        lemma_run_determined(g, first.drop_last(), second.drop_last());
        let before = g.run(first.drop_last());
        assert forall|i: int| 0 <= i < before.cells.len() implies first.last()[i]
            == second.last()[i] by {
            assert(first.last()[i] == first[first.len() - 1][i]);
        }
        lemma_tick_reads_cells(before, first.last(), second.last());
        lemma_tick_shape(before, first.last());
    }
}

/// Determinism: two grids that are equal, cell by cell and in parity, are
/// equal again after any number of ticks, if the two sources that the ticks
/// drew from gave the same values, tick by tick and cell by cell. `record`
/// returns what its source gave in a tick, and `replay` takes it.
pub proof fn lemma_equal_sources_equal_runs(
    one: Grid,
    other: Grid,
    drawn_one: Seq<Seq<Draws>>,
    drawn_other: Seq<Seq<Draws>>,
)
    requires
        one.shaped(),
        one == other,
        drawn_one.len() == drawn_other.len(),
        forall|k: int, i: int|
            0 <= k < drawn_one.len() && 0 <= i < one.cells.len() ==> drawn_one[k][i]
                == drawn_other[k][i],
    ensures
        one.run(drawn_one) == other.run(drawn_other),
        forall|i: int|
            0 <= i < one.cells.len() ==> one.run(drawn_one).cells[i] == other.run(
                drawn_other,
            ).cells[i],
        one.run(drawn_one).clock == other.run(drawn_other).clock,
{
    lemma_run_determined(one, drawn_one, drawn_other);
}

} // verus!
