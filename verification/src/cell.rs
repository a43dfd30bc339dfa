//! One grid position.

use vstd::prelude::*;
use crate::tile::ETypeFloor;

verus! {

/// One grid position: its internal, zero-based coordinates and the tile it
/// holds. A cell never moves; only its tile changes.
#[derive(Copy, Clone, Debug, PartialEq, Eq, Structural)]
pub struct Cell {
    pub x: usize,
    pub y: usize,
    pub type_floor: ETypeFloor,
}

impl Cell {
    /// The cell at `(x, y)` that holds `type_floor`.
    pub fn _new(x: usize, y: usize, type_floor: ETypeFloor) -> (cell: Self)
        ensures
            cell == (Cell { x, y, type_floor }),
    {
        Self { x, y, type_floor }
    }

    /// Replaces the tile and leaves the coordinates alone.
    pub fn update(&mut self, type_floor: ETypeFloor)
        ensures
            *final(self) == (Cell { type_floor, ..*old(self) }),
    {
        self.type_floor = type_floor;
    }

    /// The coordinates and the tile, as a triple.
    pub fn get_data(self) -> (data: (usize, usize, ETypeFloor))
        ensures
            data == (self.x, self.y, self.type_floor),
    {
        (self.x, self.y, self.type_floor)
    }
}

} // verus!
