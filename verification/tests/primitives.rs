use pylon::primitives::{backoff, AtomicFrameState, BackoffStep, DirtyRows, FramePhase, WriteOnceSlot};

#[test]
fn rows_are_marked_and_drained() {
    let mut rows = DirtyRows::default();
    assert!(!rows.any_dirty());
    rows.mark(0);
    rows.mark(63);
    rows.mark(64);
    rows.mark(255);
    rows.mark(256);
    assert!(rows.any_dirty());
    assert_eq!(rows.drain(), [1 | 1 << 63, 1, 0, 1 << 63]);
    assert!(!rows.any_dirty());
    assert_eq!(rows.drain(), [0; 4]);
    rows.mark_all();
    assert_eq!(rows.drain(), [u64::MAX; 4]);
}

#[test]
fn a_row_beyond_the_mask_is_ignored() {
    let mut rows = DirtyRows::new();
    rows.mark(256);
    rows.mark(u16::MAX);
    assert!(!rows.any_dirty());
}

#[test]
fn a_slot_keeps_its_first_value() {
    let mut slot: WriteOnceSlot<String> = WriteOnceSlot::default();
    assert!(slot.get().is_none());
    assert_eq!(slot.try_store("first".to_string()), "first");
    assert_eq!(slot.try_store("second".to_string()), "first");
    assert_eq!(slot.get().unwrap(), "first");
}

#[test]
fn frame_phases_have_their_numbers() {
    for v in 0..=255u8 {
        match FramePhase::from_u8(v) {
            Ok(phase) => assert_eq!(phase.as_u8(), v),
            Err(e) => assert!(e.message().contains("Render error: ")),
        }
    }
}

#[test]
fn a_stray_frame_phase_is_refused() {
    assert_eq!(
        FramePhase::from_u8(4).unwrap_err().message(),
        "Render error: invalid frame phase: 4"
    );
}

#[test]
fn frames_go_through_their_phases() {
    let mut state = AtomicFrameState::default();
    assert_eq!(state.load(), FramePhase::Clean);
    assert_eq!(state.transition(FramePhase::Dirty, FramePhase::Encoding), Err(FramePhase::Clean));
    state.mark_dirty();
    assert_eq!(state.load(), FramePhase::Dirty);
    state.mark_dirty();
    assert_eq!(state.transition(FramePhase::Dirty, FramePhase::Encoding), Ok(()));
    state.mark_dirty();
    assert_eq!(state.load(), FramePhase::Encoding);
    assert_eq!(state.transition(FramePhase::Encoding, FramePhase::Clean), Err(FramePhase::Encoding));
    assert_eq!(
        state.transition(FramePhase::Encoding, FramePhase::Encoding),
        Err(FramePhase::Encoding)
    );
    assert_eq!(state.load(), FramePhase::Encoding);
    assert_eq!(state.transition(FramePhase::Encoding, FramePhase::Presented), Ok(()));
    state.mark_dirty();
    assert_eq!(state.load(), FramePhase::Dirty);
}

#[test]
fn idle_workers_back_off() {
    assert_eq!(backoff(0), (BackoffStep::Yield, 1));
    assert_eq!(backoff(1), (BackoffStep::Park(100), 2));
    assert_eq!(backoff(10), (BackoffStep::Park(1000), 11));
    assert_eq!(backoff(11), (BackoffStep::Park(5000), 12));
    assert_eq!(backoff(u32::MAX), (BackoffStep::Park(5000), u32::MAX));
}
