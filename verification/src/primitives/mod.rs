//! Small building blocks: dirty-row tracking, the frame phase machine, a write-once slot and the
//! back-off of idle workers.

pub mod dirty_rows;
pub mod frame_state;
pub mod waker;
pub mod write_once;

pub use dirty_rows::{mask_has, DirtyRows};
pub use frame_state::{AtomicFrameState, FramePhase};
pub use waker::{backoff, BackoffStep};
pub use write_once::WriteOnceSlot;
