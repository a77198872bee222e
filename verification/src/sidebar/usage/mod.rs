//! Usage of the accounts: credentials, replies of the service, and when to ask.

pub mod api;
pub mod config;
pub mod credentials;
pub mod laws;
pub mod poller;

pub use api::{Timestamp, UsageData, Utilization};
pub use config::{AccountConfig, AuthMethod, TrackerConfig};
pub use poller::UsageUpdate;
