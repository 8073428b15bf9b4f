//! The palette strip above the grid: one swatch for each paintable material,
//! and a frame round the swatch of the selected one.

use vstd::prelude::*;
use crate::material::Kind;
use crate::render::backdrop;

verus! {

/// The width of the strip, which is that of the canonical grid.
pub const TOOLBAR_WIDTH: usize = 320;

pub const TOOLBAR_HEIGHT: usize = 30;

/// The width of the part of the strip that one swatch stands in.
pub const PART_WIDTH: usize = 32;

/// The colour round the swatch of the selected material.
pub open spec fn highlight() -> Seq<u8> {
    seq![0x7Fu8, 0x00u8, 0x00u8, 0xFFu8]
}

/// Whether the pixel at `(x, y)` of the strip lies inside the swatch of its
/// part.
pub open spec fn in_swatch(x: int, y: int) -> bool {
    5 < y < TOOLBAR_HEIGHT - 5 && 4 <= x % (PART_WIDTH as int) < PART_WIDTH - 4
}

/// The four bytes of pixel `i` of the strip, rows first, when `selected` is
/// the selected material. The parts behind the last swatch are black.
pub open spec fn strip_pixel(i: int, selected: Kind) -> Seq<u8> {
    let x = i % (TOOLBAR_WIDTH as int);
    let y = i / (TOOLBAR_WIDTH as int);
    let part = x / (PART_WIDTH as int);
    if 0 <= part < Kind::palette().len() {
        if Kind::palette()[part] == selected && !in_swatch(x, y) {
            highlight()
        } else if in_swatch(x, y) {
            Kind::palette()[part].rgba()
        } else {
            backdrop()
        }
    } else {
        backdrop()
    }
}

/// What drawing the strip makes of `frame`: the complete groups of four
/// bytes that stand for the strip's pixels hold them, and all other bytes
/// are left as they were.
pub open spec fn strip_rendered(frame: Seq<u8>, selected: Kind) -> Seq<u8> {
    Seq::new(
        frame.len(),
        |j: int|
            if j / 4 < frame.len() / 4 && j / 4 < TOOLBAR_WIDTH * TOOLBAR_HEIGHT {
                strip_pixel(j / 4, selected)[j % 4]
            } else {
                frame[j]
            },
    )
}

/// The material whose part of the strip the pixel at `(x, y)` lies in.
pub open spec fn picked(x: int, y: int) -> Option<Kind> {
    if 0 <= y < TOOLBAR_HEIGHT && 0 <= x / (PART_WIDTH as int) < Kind::palette().len() {
        Some(Kind::palette()[x / (PART_WIDTH as int)])
    } else {
        None
    }
}

pub struct Toolbar {}

impl Toolbar {
    /// Draws the strip into the first rows of `frame`, four bytes for each
    /// pixel.
    pub fn draw(&self, frame: &mut [u8], selected_kind: Kind)
        ensures
            final(frame)@ == strip_rendered(old(frame)@, selected_kind),
    {
        let pixels = if frame.len() / 4 < TOOLBAR_WIDTH * TOOLBAR_HEIGHT {
            frame.len() / 4
        } else {
            TOOLBAR_WIDTH * TOOLBAR_HEIGHT
        };
        let kinds = Kind::paintable();
        let mut i: usize = 0;
        while i < pixels
            invariant
                i <= pixels,
                pixels <= old(frame)@.len() / 4,
                pixels <= TOOLBAR_WIDTH * TOOLBAR_HEIGHT,
                pixels == old(frame)@.len() / 4 || pixels == TOOLBAR_WIDTH * TOOLBAR_HEIGHT,
                old(frame)@.len() <= usize::MAX,
                frame@.len() == old(frame)@.len(),
                kinds@ == Kind::palette(),
                forall|j: int|
                    0 <= j < 4 * i ==> frame@[j] == strip_pixel(j / 4, selected_kind)[j % 4],
                forall|j: int| 4 * i <= j < frame@.len() ==> frame@[j] == old(frame)@[j],
            decreases pixels - i,
        {
            let x = i % TOOLBAR_WIDTH;
            let y = i / TOOLBAR_WIDTH;
            let part = x / PART_WIDTH;
            let within = x % PART_WIDTH;
            let inside = (y > 5 && y < TOOLBAR_HEIGHT - 5) && (within >= 4 && within < PART_WIDTH
                - 4);
            let mut rgba: [u8; 4] = [0x00, 0x00, 0x00, 0xFF];
            if part < 4 {
                let kind = kinds[part];
                if kind == selected_kind && !inside {
                    rgba = [0x7F, 0x00, 0x00, 0xFF];
                } else if inside {
                    rgba = kind.color();
                }
            }
            assert(rgba@ == strip_pixel(i as int, selected_kind));
            frame[4 * i] = rgba[0];
            frame[4 * i + 1] = rgba[1];
            frame[4 * i + 2] = rgba[2];
            frame[4 * i + 3] = rgba[3];
            i = i + 1;
        }
        assert(frame@ =~= strip_rendered(old(frame)@, selected_kind));
    }

    /// The material that a click on the pixel at `(x, y)` of the window
    /// selects, if the pixel lies in a swatch's part of the strip.
    pub fn pick(&self, x: usize, y: usize) -> (kind: Option<Kind>)
        ensures
            kind == picked(x as int, y as int),
    {
        if y < TOOLBAR_HEIGHT {
            let part = x / PART_WIDTH;
            if part < 4 {
                let kinds = Kind::paintable();
                return Some(kinds[part]);
            }
        }
        None
    }
}

} // verus!
