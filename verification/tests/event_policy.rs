use std::time::Duration;

use pylon::event_policy::{next_wait_duration, FrameResult};

#[test]
fn data_received_returns_none() {
    assert_eq!(next_wait_duration(FrameResult::DataReceived), None);
}

#[test]
fn idle_returns_16ms() {
    assert_eq!(next_wait_duration(FrameResult::Idle), Some(Duration::from_millis(16)));
}
