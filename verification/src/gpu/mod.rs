//! What is handed to the graphics processor: glyph places, buffer sizes and cells.

pub mod atlas;
pub mod buffers;
pub mod frame;
