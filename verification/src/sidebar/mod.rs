//! The side panel: sessions, usage, and how they are drawn.

pub mod discovery;
pub mod layout;
pub mod sessions;
pub mod state;
pub mod tracker;
pub mod usage;

pub use sessions::{SessionList, SessionStatus, SessionSummary};
pub use state::{SidebarPanel, SidebarState};
pub use tracker::UsageTracker;
