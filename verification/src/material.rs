//! The materials that a cell of the grid can hold, and how each is shown.

use vstd::prelude::*;

verus! {

/// What a cell of the grid holds.
#[derive(Clone, Copy, Debug, PartialEq, Eq, Structural)]
pub enum Kind {
    Empty,
    Sand,
    Gravel,
    Water,
    Stone,
}

impl Kind {
    /// The RGBA bytes of each material. `Empty` is fully transparent.
    pub open spec fn rgba(self) -> Seq<u8> {
        match self {
            Kind::Empty => seq![0u8, 0u8, 0u8, 0u8],
            Kind::Sand => seq![0xC2u8, 0xB2u8, 0x80u8, 0xFFu8],
            Kind::Gravel => seq![0x60u8, 0x60u8, 0x60u8, 0xFFu8],
            Kind::Water => seq![0x00u8, 0x96u8, 0xFFu8, 0xFFu8],
            Kind::Stone => seq![0xCCu8, 0xCCu8, 0xCCu8, 0xFFu8],
        }
    }

    /// The kinds that can be placed with a brush, in the order in which a
    /// palette shows them. `Empty` is not among them: it erases.
    pub open spec fn palette() -> Seq<Kind> {
        seq![Kind::Sand, Kind::Gravel, Kind::Water, Kind::Stone]
    }

    pub fn color(&self) -> (rgba: [u8; 4])
        ensures
            rgba@ == self.rgba(),
    {
        match *self {
            Kind::Empty => [0, 0, 0, 0],
            Kind::Sand => [0xC2, 0xB2, 0x80, 0xFF],
            Kind::Gravel => [0x60, 0x60, 0x60, 0xFF],
            Kind::Water => [0x00, 0x96, 0xFF, 0xFF],
            Kind::Stone => [0xCC, 0xCC, 0xCC, 0xFF],
        }
    }

    pub fn paintable() -> (kinds: [Kind; 4])
        ensures
            kinds@ == Kind::palette(),
    {
        [Kind::Sand, Kind::Gravel, Kind::Water, Kind::Stone]
    }
}

} // verus!
