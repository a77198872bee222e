use std::time::Duration;

use vstd::prelude::*;

verus! {

/// The length of a duration in nanoseconds.
pub uninterp spec fn duration_nanos(d: std::time::Duration) -> nat;

/// `Duration::from_millis`: the duration of the given number of milliseconds.
pub assume_specification[ std::time::Duration::from_millis ](millis: u64) -> (d: Duration)
    ensures
        duration_nanos(d) == millis * 1_000_000,
;

/// Result of polling all PTYs during a single frame.
pub enum FrameResult {
    /// At least one PTY produced data -- keep spinning to drain remaining.
    DataReceived,
    /// No PTYs produced data -- idle until next tick.
    Idle,
}

/// Returns the recommended sleep duration for the event loop.
///
/// - `DataReceived` -> `None` (poll immediately, no sleep)
/// - `Idle` -> `Some(16ms)` (~60fps for cursor blink / sidebar refresh)
pub fn next_wait_duration(result: FrameResult) -> (wait: Option<Duration>)
    ensures
        match result {
            FrameResult::DataReceived => wait is None,
            FrameResult::Idle => wait is Some && duration_nanos(wait->0) == 16_000_000,
        },
{
    match result {
        FrameResult::DataReceived => None,
        FrameResult::Idle => Some(Duration::from_millis(16)),
    }
}

} // verus!
