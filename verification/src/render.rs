//! Rendering: the grid as RGBA pixels in a caller's buffer.

use vstd::prelude::*;
use crate::grid::Grid;
use crate::material::Kind;
use crate::world::World;

verus! {

/// The colour that an empty cell is drawn in: opaque black.
pub open spec fn backdrop() -> Seq<u8> {
    seq![0x00u8, 0x00u8, 0x00u8, 0xFFu8]
}

impl Grid {
    /// The four bytes that cell `i` is drawn as. Cell `i` is the cell at
    /// `(i % width, i / width)`.
    pub open spec fn pixel(self, i: int) -> Seq<u8> {
        if self.cells[i].kind != Kind::Empty {
            self.cells[i].kind.rgba()
        } else {
            backdrop()
        }
    }

    /// What drawing the grid makes of `frame`: each complete group of four
    /// bytes holds the pixel of the cell with the group's number, and bytes
    /// behind the last complete group are left as they were.
    pub open spec fn rendered(self, frame: Seq<u8>) -> Seq<u8> {
        Seq::new(
            frame.len(),
            |j: int|
                if j / 4 < frame.len() / 4 {
                    self.pixel(j / 4)[j % 4]
                } else {
                    frame[j]
                },
        )
    }
}

impl World {
    /// Draws the grid into `frame`, four bytes for each cell, row by row.
    /// The frame may be shorter than the grid, and is then filled as far as
    /// it goes; it cannot hold more pixels than the grid has cells.
    pub fn draw(&self, frame: &mut [u8])
        requires
            self.wf(),
            old(frame)@.len() / 4 <= self@.cells.len(),
        ensures
            final(frame)@ == self@.rendered(old(frame)@),
    {
        let pixels = frame.len() / 4;
        let mut i: usize = 0;
        while i < pixels
            invariant
                i <= pixels,
                pixels == old(frame)@.len() / 4,
                pixels <= self.particles@.len(),
                old(frame)@.len() <= usize::MAX,
                frame@.len() == old(frame)@.len(),
                forall|j: int| 0 <= j < 4 * i ==> frame@[j] == self@.pixel(j / 4)[j % 4],
                forall|j: int| 4 * i <= j < frame@.len() ==> frame@[j] == old(frame)@[j],
            decreases pixels - i,
        {
            let kind = self.particles[i].kind;
            let rgba = if kind != Kind::Empty {
                kind.color()
            } else {
                [0x00, 0x00, 0x00, 0xFF]
            };
            frame[4 * i] = rgba[0];
            frame[4 * i + 1] = rgba[1];
            frame[4 * i + 2] = rgba[2];
            frame[4 * i + 3] = rgba[3];
            i = i + 1;
        }
        assert(frame@ =~= self@.rendered(old(frame)@));
    }
}

} // verus!
