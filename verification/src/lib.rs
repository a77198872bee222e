//! The verified core of Pylon, a terminal emulator with a session and usage side panel.

pub mod app;
pub mod config;
pub mod data;
pub mod error;
pub mod event_policy;
pub mod gpu;
pub mod grid;
pub mod primitives;
pub mod pty;
pub mod selection;
pub mod session;
pub mod sidebar;
pub mod text;
pub mod vt;
