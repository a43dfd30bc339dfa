//! The tile vocabulary: five kinds, each with one character and one colour.

use vstd::prelude::*;
use vstd::std_specs::convert::FromSpecImpl;

verus! {

/// The kind of tile a grid cell holds.
#[derive(Copy, Clone, Debug, PartialEq, Eq, Structural)]
pub enum ETypeFloor {
    Empty,
    Floor,
    Door,
    Trap,
    Wall,
}

impl ETypeFloor {
    /// The character that stands for a kind in the text dump.
    pub open spec fn spec_to_char(self) -> char {
        match self {
            ETypeFloor::Empty => ' ',
            ETypeFloor::Floor => 'f',
            ETypeFloor::Door => 'd',
            ETypeFloor::Trap => 't',
            ETypeFloor::Wall => 'w',
        }
    }

    /// The kind a character stands for; every character without a kind of
    /// its own reads as `Empty`.
    pub open spec fn spec_from_char(c: char) -> ETypeFloor {
        if c == 'f' {
            ETypeFloor::Floor
        } else if c == 'd' {
            ETypeFloor::Door
        } else if c == 't' {
            ETypeFloor::Trap
        } else if c == 'w' {
            ETypeFloor::Wall
        } else {
            ETypeFloor::Empty
        }
    }

    /// The display colour of a kind, as `0xRRGGBB`.
    pub open spec fn spec_color(self) -> u32 {
        match self {
            ETypeFloor::Empty => 0x9DB5B2,
            ETypeFloor::Door => 0x19535F,
            ETypeFloor::Floor => 0x0B7A75,
            ETypeFloor::Trap => 0x7B2D26,
            ETypeFloor::Wall => 0xD7C9AA,
        }
    }

    /// Decodes a tile character. Decoding is lenient: an unknown character
    /// gives `Empty` rather than an error.
    pub fn from_char(c: char) -> (kind: ETypeFloor)
        ensures
            kind == Self::spec_from_char(c),
    {
        match c {
            ' ' => ETypeFloor::Empty,
            'f' => ETypeFloor::Floor,
            'd' => ETypeFloor::Door,
            't' => ETypeFloor::Trap,
            'w' => ETypeFloor::Wall,
            _ => ETypeFloor::Empty,
        }
    }

    /// Encodes a kind as its tile character.
    pub fn to_char(self) -> (c: char)
        ensures
            c == self.spec_to_char(),
    {
        match self {
            ETypeFloor::Empty => ' ',
            ETypeFloor::Floor => 'f',
            ETypeFloor::Door => 'd',
            ETypeFloor::Trap => 't',
            ETypeFloor::Wall => 'w',
        }
    }

    /// The display colour of a kind: opaque 24-bit RGB.
    pub fn get_color(&self) -> (rgb: u32)
        ensures
            rgb == self.spec_color(),
            rgb <= 0xFF_FFFF,
    {
        match self {
            ETypeFloor::Empty => 0x9DB5B2,
            ETypeFloor::Door => 0x19535F,
            ETypeFloor::Floor => 0x0B7A75,
            ETypeFloor::Trap => 0x7B2D26,
            ETypeFloor::Wall => 0xD7C9AA,
        }
    }

    /// Encoding a kind and decoding the character gives the kind back.
    pub proof fn lemma_char_round_trip(kind: ETypeFloor)
        ensures
            Self::spec_from_char(kind.spec_to_char()) == kind,
    {
    }

    /// Two kinds that share a character are the same kind.
    pub proof fn lemma_char_injective(a: ETypeFloor, b: ETypeFloor)
        requires
            a.spec_to_char() == b.spec_to_char(),
        ensures
            a == b,
    {
    }

    /// Two kinds that share a colour are the same kind.
    pub proof fn lemma_color_injective(a: ETypeFloor, b: ETypeFloor)
        requires
            a.spec_color() == b.spec_color(),
        ensures
            a == b,
    {
    }
}

impl From<ETypeFloor> for char {
    fn from(kind: ETypeFloor) -> (c: char) {
        kind.to_char()
    }
}

impl FromSpecImpl<ETypeFloor> for char {
    open spec fn obeys_from_spec() -> bool {
        true
    }

    open spec fn from_spec(kind: ETypeFloor) -> char {
        kind.spec_to_char()
    }
}

} // verus!
