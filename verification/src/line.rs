//! The line between two pointer positions, as the `line_drawing` crate's
//! Bresenham walk gives it. Nothing here is proved.

use vstd::prelude::*;
use line_drawing::Bresenham;

verus! {

/// The largest magnitude of a coordinate that a line is asked for. The walk
/// computes the differences of the end points' coordinates, and an error
/// term that stays within twice the greater difference; with coordinates
/// within this bound all of them fit a word of 32 bits.
pub const REACH: isize = 0x0100_0000;

/// The points that `line_drawing::Bresenham::new((x0, y0), (x1, y1))` yields,
/// in the order in which it yields them.
pub uninterp spec fn bresenham_line(x0: isize, y0: isize, x1: isize, y1: isize) -> Seq<
    (isize, isize),
>;

/// `Bresenham::new(from, to)`, walked to its end. The walk is a function of
/// its two end points, so its points have a name; it overflows on coordinates
/// of great magnitude, which `requires` leaves out.
#[verifier::external_body]
pub(crate) fn line_points(from: (isize, isize), to: (isize, isize)) -> (points: Vec<(isize, isize)>)
    requires
        -REACH <= from.0 <= REACH,
        -REACH <= from.1 <= REACH,
        -REACH <= to.0 <= REACH,
        -REACH <= to.1 <= REACH,
    ensures
        points@ == bresenham_line(from.0, from.1, to.0, to.1),
{
    Bresenham::new(from, to).collect()
}

} // verus!
