//! How the side panel is drawn: a grid of cells, and the panels on it.

pub mod canvas;
pub mod cards;
pub mod laws;
pub mod panels;

pub use panels::render_sidebar;
