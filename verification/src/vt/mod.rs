//! The virtual terminal: its state, the meaning of each escape sequence, and the byte parser.

pub mod effects;
pub mod handler;
pub mod laws;
pub mod model;
pub mod parser;
pub mod state;

pub use handler::VtHandler;
pub use parser::VtParser;
pub use state::{CursorState, MouseMode, TerminalState};
