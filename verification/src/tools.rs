//! The editing tool: which tile the next write paints.

use vstd::prelude::*;
use crate::tile::ETypeFloor;

verus! {

/// The tile kind that is currently selected for painting.
#[derive(Debug)]
pub struct MapTools {
    pub type_floor_selected: ETypeFloor,
}

impl MapTools {
    /// Selects `t` for the writes that follow.
    pub fn change_type_floor_selected(&mut self, t: ETypeFloor)
        ensures
            final(self).type_floor_selected == t,
    {
        self.type_floor_selected = t;
    }
}

impl Default for MapTools {
    /// A fresh tool paints floor.
    fn default() -> (tools: Self)
        ensures
            tools.type_floor_selected == ETypeFloor::Floor,
    {
        MapTools { type_floor_selected: ETypeFloor::Floor }
    }
}

} // verus!
