//! The brush: a stroke between two pointer positions paints the three by
//! three cells round each point of the line between them.

use vstd::prelude::*;
use crate::grid::Grid;
use crate::line::{bresenham_line, line_points, REACH};
use crate::material::Kind;
use crate::world::World;

verus! {

/// The points of a line as mathematical coordinates.
pub open spec fn as_points(points: Seq<(isize, isize)>) -> Seq<(int, int)> {
    Seq::new(points.len(), |i: int| (points[i].0 as int, points[i].1 as int))
}

impl Grid {
    /// The grid after the first `done` cells of the brush round `(x, y)` were
    /// painted: column by column, each from `y - 1` to `y + 1`.
    pub open spec fn dabbed(self, x: int, y: int, kind: Kind, done: nat) -> Grid
        decreases done,
    {
        if done == 0 {
            self
        } else {
            let cell = done - 1;
            self.dabbed(x, y, kind, cell as nat).paint(x + cell / 3 - 1, y + cell % 3 - 1, kind)
        }
    }

    /// The grid after the brush was set down at `(x, y)`.
    pub open spec fn dab(self, x: int, y: int, kind: Kind) -> Grid {
        self.dabbed(x, y, kind, 9)
    }

    /// The grid after the brush was set down at each of `points` in turn.
    pub open spec fn stroked(self, points: Seq<(int, int)>, kind: Kind) -> Grid
        decreases points.len(),
    {
        if points.len() == 0 {
            self
        } else {
            self.stroked(points.drop_last(), kind).dab(points.last().0, points.last().1, kind)
        }
    }
}

/// The coordinate `step` beside `at`, if it is not negative.
fn beside(at: isize, step: usize) -> (found: Option<usize>)
    requires
        step < 3,
    ensures
        found == if at + step - 1 >= 0 {
            Some((at + step - 1) as usize)
        } else {
            None
        },
{
    let target: i128 = at as i128 + step as i128 - 1;
    if target >= 0 {
        Some(target as usize)
    } else {
        None
    }
}

impl World {
    /// Sets the brush down at `(x, y)`: paints `kind` on each of the nine
    /// cells round it, as `set_pixel` does. The brush may hang over the
    /// edge of the grid, or lie beside it.
    pub fn dab(&mut self, x: isize, y: isize, kind: Kind)
        requires
            old(self).wf(),
        ensures
            final(self).wf(),
            final(self)@ == old(self)@.dab(x as int, y as int, kind),
    {
        let mut cell: usize = 0;
        while cell < 9
            invariant
                cell <= 9,
                self.wf(),
                self@ == old(self)@.dabbed(x as int, y as int, kind, cell as nat),
            decreases 9 - cell,
        {
            match (beside(x, cell / 3), beside(y, cell % 3)) {
                (Some(column), Some(row)) => {
                    self.set_pixel((column, row), kind);
                },
                _ => {},
            }
            cell = cell + 1;
        }
    }

    /// Sets the brush down at each of `points` in turn.
    pub fn dab_each(&mut self, points: &Vec<(isize, isize)>, kind: Kind)
        requires
            old(self).wf(),
        ensures
            final(self).wf(),
            final(self)@ == old(self)@.stroked(as_points(points@), kind),
    {
        let mut i: usize = 0;
        while i < points.len()
            invariant
                i <= points.len(),
                self.wf(),
                self@ == old(self)@.stroked(as_points(points@).take(i as int), kind),
            decreases points.len() - i,
        {
            let (x, y) = points[i];
            proof {
                let so_far = as_points(points@).take(i + 1);
                assert(so_far.drop_last() =~= as_points(points@).take(i as int));
                assert(so_far.last() == (x as int, y as int));
            }
            self.dab(x, y, kind);
            i = i + 1;
        }
        assert(as_points(points@).take(i as int) =~= as_points(points@));
    }

    /// Paints a stroke of the brush from `from` to `to`: the brush is set
    /// down at each point of the line between the two, both ends included.
    /// The points are grid coordinates, and may lie off the grid.
    pub fn stroke(&mut self, from: (isize, isize), to: (isize, isize), kind: Kind)
        requires
            old(self).wf(),
            -REACH <= from.0 <= REACH,
            -REACH <= from.1 <= REACH,
            -REACH <= to.0 <= REACH,
            -REACH <= to.1 <= REACH,
        ensures
            final(self).wf(),
            final(self)@ == old(self)@.stroked(
                as_points(bresenham_line(from.0, from.1, to.0, to.1)),
                kind,
            ),
    {
        let points = line_points(from, to);
        self.dab_each(&points, kind);
    }
}

} // verus!
