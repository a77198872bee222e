//! The terminal's windows and what is done about each event.

pub mod effects;
pub mod events;
pub mod frames;
pub mod keys;
pub mod laws;
pub mod state;
pub mod tab;

pub use state::App;
pub use tab::TerminalWindow;
