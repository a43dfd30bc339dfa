//! What the interactive front-end asks of the map: keys choose the tile to
//! paint with, the pointer paints or erases the cell under it.

use vstd::prelude::*;
use crate::error::MapError;
use crate::grid::{GridView, MapData};
use crate::tile::ETypeFloor;
use crate::tools::MapTools;

verus! {

/// The keys of the tool palette.
#[derive(Copy, Clone, Debug, PartialEq, Eq, Structural)]
pub enum ToolKey {
    Key1,
    Key2,
    Key3,
    Key4,
    E,
}

impl ToolKey {
    /// The tile that a key selects.
    pub open spec fn tile(self) -> ETypeFloor {
        match self {
            ToolKey::Key1 => ETypeFloor::Floor,
            ToolKey::Key2 => ETypeFloor::Door,
            ToolKey::Key3 => ETypeFloor::Wall,
            ToolKey::Key4 => ETypeFloor::Trap,
            ToolKey::E => ETypeFloor::Empty,
        }
    }
}

impl MapTools {
    /// The tile that the pointer writes: the selected one while the left
    /// button is down, a blank while only the right one is, none otherwise.
    pub open spec fn brush(self, left_down: bool, right_down: bool) -> Option<ETypeFloor> {
        if left_down {
            Some(self.type_floor_selected)
        } else if right_down {
            Some(ETypeFloor::Empty)
        } else {
            None
        }
    }

    /// Selects the tile of the key that was pressed.
    pub fn press_key(&mut self, key: ToolKey)
        ensures
            final(self).type_floor_selected == key.tile(),
    {
        let tile = match key {
            ToolKey::Key1 => ETypeFloor::Floor,
            ToolKey::Key2 => ETypeFloor::Door,
            ToolKey::Key3 => ETypeFloor::Wall,
            ToolKey::Key4 => ETypeFloor::Trap,
            ToolKey::E => ETypeFloor::Empty,
        };
        self.change_type_floor_selected(tile);
    }
}

impl GridView {
    /// The pointer at the one-based position `(x, y)` is over a cell.
    pub open spec fn pointed(self, x: int, y: int) -> bool {
        self.holds(x - 1, y - 1)
    }

    /// The grid after the pointer acted at `(x, y)` with the given brush.
    /// Off the grid, or with no button down, nothing changes.
    pub open spec fn painted(self, x: int, y: int, brush: Option<ETypeFloor>) -> GridView {
        match brush {
            Some(tile) if self.pointed(x, y) => self.put(x, y, tile),
            _ => self,
        }
    }

    /// On a rectangular grid the pointer is over a cell exactly where a
    /// write is accepted, so painting there never fails.
    pub proof fn lemma_pointed_is_accepted(self, x: int, y: int)
        requires
            self.rectangular(),
        ensures
            self.pointed(x, y) <==> self.accepts(x, y),
    {
        self.lemma_accepted_range(x, y);
    }
}

impl<const X: usize, const Y: usize> MapData<X, Y> {
    /// One step of the pointer at the one-based position `(x, y)`.
    ///
    /// Over a cell and with a button down, the brush of the tools is written
    /// at `(x, y)` as any write is, and the answer is `Ok(true)`, or the
    /// error of the write where the origin policy refuses the pair. In every
    /// other case the map stays as it was and the answer is `Ok(false)`.
    pub fn pointer_update(
        &mut self,
        tools: &MapTools,
        x: usize,
        y: usize,
        left_down: bool,
        right_down: bool,
    ) -> (painted: Result<bool, MapError>)
        ensures
            final(self)@ == old(self)@.painted(x as int, y as int, tools.brush(left_down, right_down)),
            painted == if old(self)@.pointed(x as int, y as int) && tools.brush(left_down, right_down)
                is Some {
                if old(self)@.accepts(x as int, y as int) {
                    Ok::<bool, MapError>(true)
                } else {
                    Err::<bool, MapError>(MapError::OutOfBounds)
                }
            } else {
                Ok::<bool, MapError>(false)
            },
            old(self).wf() ==> final(self).wf(),
    {
        let over_a_cell = x >= 1 && y >= 1 && self.get_cell(x - 1, y - 1).is_ok();
        if !over_a_cell {
            return Ok(false);
        }
        let tile = if left_down {
            tools.type_floor_selected
        } else if right_down {
            ETypeFloor::Empty
        } else {
            return Ok(false);
        };
        match self.update_cell(x, y, tile) {
            Ok(_) => Ok(true),
            Err(e) => Err(e),
        }
    }
}

} // verus!
