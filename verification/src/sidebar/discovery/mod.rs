//! Which sessions run in the tabs: what the system's tools and the session files say.

pub mod jsonl;
pub mod laws;
pub mod poller;
pub mod tab_session;

pub use poller::{TabScanRequest, TabScanResult};
pub use tab_session::{ClaudeSession, ClaudeStatus};
