//! The pseudo-terminal: its size, the frames read from it, and the children left behind.

pub mod reader;
pub mod spawn;

pub use reader::PtyReader;
pub use spawn::{PtySize, Reaper};
