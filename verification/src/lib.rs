//! A fixed-size 2-D tile map: a grid of typed cells addressed through a
//! configurable coordinate origin, with a canonical text dump.

pub mod cell;
pub mod command;
pub mod dump;
pub mod error;
pub mod grid;
pub mod pointer;
mod text;
pub mod tile;
pub mod tools;

pub use cell::Cell;
pub use error::MapError;
pub use grid::{GridView, MapData};
pub use pointer::ToolKey;
pub use tile::ETypeFloor;
pub use tools::MapTools;
