//! The paint interface's rule: erasing always takes effect, placing a
//! material never overwrites one, and off the grid nothing happens.

use vstd::prelude::*;
use crate::grid::{lemma_index_in_range, lemma_put_at, lemma_tally_bound, lemma_tally_update, Grid, Particle};
use crate::material::Kind;

verus! {

/// Painting keeps a grid well formed, and its size and parity.
pub proof fn lemma_paint_well_formed(g: Grid, x: int, y: int, kind: Kind)
    requires
        g.well_formed(),
    ensures
        g.paint(x, y, kind).well_formed(),
        g.paint(x, y, kind).width == g.width,
        g.paint(x, y, kind).height == g.height,
        g.paint(x, y, kind).clock == g.clock,
{
    if g.in_bounds(x, y) {
        lemma_index_in_range(g, x, y);
    }
}

/// Erasing a cell on the grid always leaves it empty, and changes no other
/// cell.
pub proof fn lemma_erase_clears(g: Grid, x: int, y: int)
    requires
        g.shaped(),
        g.in_bounds(x, y),
    ensures
        g.paint(x, y, Kind::Empty).at(x, y) == (Particle { kind: Kind::Empty, touched: g.clock }),
        forall|px: int, py: int|
            g.in_bounds(px, py) && !(px == x && py == y) ==> #[trigger] g.paint(
                x,
                y,
                Kind::Empty,
            ).at(px, py) == g.at(px, py),
{
    let erased = Particle { kind: Kind::Empty, touched: g.clock };
    lemma_put_at(g, x, y, erased, x, y);
    assert forall|px: int, py: int| g.in_bounds(px, py) && !(px == x && py == y) implies #[trigger] g.paint(
        x,
        y,
        Kind::Empty,
    ).at(px, py) == g.at(px, py) by {
        lemma_put_at(g, x, y, erased, px, py);
    }
}

/// Placing a material on an empty cell of the grid leaves the material
/// there, marked with the grid's parity, and changes no other cell.
pub proof fn lemma_paint_places(g: Grid, x: int, y: int, kind: Kind)
    requires
        g.shaped(),
        g.in_bounds(x, y),
        g.at(x, y).kind == Kind::Empty,
    ensures
        g.paint(x, y, kind).at(x, y) == (Particle { kind, touched: g.clock }),
        forall|px: int, py: int|
            g.in_bounds(px, py) && !(px == x && py == y) ==> #[trigger] g.paint(x, y, kind).at(
                px,
                py,
            ) == g.at(px, py),
{
    let placed = Particle { kind, touched: g.clock };
    lemma_put_at(g, x, y, placed, x, y);
    assert forall|px: int, py: int| g.in_bounds(px, py) && !(px == x && py == y) implies #[trigger] g.paint(
        x,
        y,
        kind,
    ).at(px, py) == g.at(px, py) by {
        lemma_put_at(g, x, y, placed, px, py);
    }
}

/// Placing a material on a cell that holds a particle leaves the grid
/// unchanged.
pub proof fn lemma_paint_is_guarded(g: Grid, x: int, y: int, kind: Kind)
    requires
        kind != Kind::Empty,
        g.at(x, y).kind != Kind::Empty,
    ensures
        g.paint(x, y, kind) == g,
{
}

/// Painting any kind at a coordinate off the grid leaves the grid unchanged.
pub proof fn lemma_paint_off_grid(g: Grid, x: int, y: int, kind: Kind)
    requires
        !g.in_bounds(x, y),
    ensures
        g.paint(x, y, kind) == g,
{
}

/// What painting does to the number of particles: erasing a particle takes
/// one away, placing a material on an empty cell adds one, and every other
/// call keeps the number.
pub proof fn lemma_paint_counts(g: Grid, x: int, y: int, kind: Kind)
    requires
        g.shaped(),
    ensures
        g.paint(x, y, kind).occupied() == g.occupied() + if !g.in_bounds(x, y) {
            0int
        } else if kind == Kind::Empty && g.at(x, y).kind != Kind::Empty {
            -1int
        } else if kind != Kind::Empty && g.at(x, y).kind == Kind::Empty {
            1int
        } else {
            0int
        },
{
    lemma_tally_bound(g.cells, Kind::Empty);
    if g.in_bounds(x, y) && (kind == Kind::Empty || g.at(x, y).kind == Kind::Empty) {
        lemma_index_in_range(g, x, y);
        let painted = Particle { kind, touched: g.clock };
        lemma_tally_update(g.cells, g.index(x, y), painted, Kind::Empty);
        lemma_tally_bound(g.paint(x, y, kind).cells, Kind::Empty);
    }
}

} // verus!
