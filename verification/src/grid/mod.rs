//! The character grid: cells, rows, the visible screen and its scrollback history.

pub mod cell;
pub mod laws;
pub mod row;
pub mod storage;

pub use cell::{Cell, CellAttributes, CellFlags, Color, NamedColor};
pub use row::Row;
pub use storage::{Grid, ScrollbackBuffer};
