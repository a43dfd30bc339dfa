//! What can go wrong when addressing the grid or reading a command.

use vstd::prelude::*;

verus! {

/// The recoverable failures of the map. None of them changes the grid.
#[derive(Copy, Clone, Debug, PartialEq, Eq, Structural)]
pub enum MapError {
    /// A read addressed a position outside the grid.
    NotFound,
    /// A write addressed a position outside the grid, coordinate `0`
    /// included.
    OutOfBounds,
    /// A command line did not hold two numbers and one tile character.
    InputParseFailure,
}

} // verus!
