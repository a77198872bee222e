//! Sessions of the assistant: what is exchanged with them, and their text as rows of cells.

pub mod manager;
pub mod renderer;
