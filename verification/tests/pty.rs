use pylon::error::CockpitError;
use pylon::pty::reader::{PtyStep, ReadOutcome, MAX_BYTES_PER_FRAME, READ_BUF_SIZE};
use pylon::pty::spawn::{default_shell, file_name, is_alive, login_name, WaitOutcome};
use pylon::pty::{PtyReader, PtySize, Reaper};

/// A pipe of which the writing end holds `data`.
struct Pipe {
    data: Vec<u8>,
    closed: bool,
}

impl Pipe {
    fn read(&mut self, count: usize) -> ReadOutcome {
        if self.data.is_empty() {
            return if self.closed { ReadOutcome::Eof } else { ReadOutcome::WouldBlock };
        }
        let count = count.min(self.data.len());
        ReadOutcome::Data(self.data.drain(..count).collect())
    }
}

/// One frame: polls and reads as the reader asks for it.
fn poll_read(reader: &mut PtyReader, pipe: &mut Pipe) -> Result<Vec<u8>, CockpitError> {
    let mut step = reader.begin_frame();
    loop {
        step = match step {
            PtyStep::Poll => {
                if pipe.data.is_empty() && !pipe.closed {
                    return Ok(Vec::new());
                }
                reader.next_read()
            }
            PtyStep::Read(count) => {
                let outcome = pipe.read(count);
                reader.after_read(outcome)
            }
            PtyStep::Return(frame) => return Ok(frame),
            PtyStep::Fail(e) => return Err(e),
        };
    }
}

fn pattern(size: usize) -> Vec<u8> {
    (0..size).map(|i| (i % 256) as u8).collect()
}

#[test]
fn test_overflow_buffer_initialized_empty() {
    let reader = PtyReader::new();
    assert!(reader.overflow_len() == 0, "overflow buffer should be empty on construction");
}

#[test]
fn test_drain_to_eagain_with_overflow() {
    let data_size = MAX_BYTES_PER_FRAME * 3;
    let data = pattern(data_size);
    let mut pipe = Pipe { data: data.clone(), closed: true };
    let mut reader = PtyReader::new();
    reader.register();

    let mut collected = Vec::new();
    for _ in 0..10 {
        let chunk = poll_read(&mut reader, &mut pipe).unwrap();
        if chunk.is_empty() {
            break;
        }
        collected.extend_from_slice(&chunk);
    }

    assert_eq!(
        collected.len(),
        data_size,
        "all {data_size} bytes must be returned across multiple poll_read calls"
    );
    assert_eq!(collected, data, "data must be returned in order");
}

#[test]
fn test_overflow_served_before_new_poll() {
    let data_size = MAX_BYTES_PER_FRAME * 2;
    let data = pattern(data_size);
    let mut pipe = Pipe { data: data.clone(), closed: false };
    let mut reader = PtyReader::new();
    reader.register();

    let chunk1 = poll_read(&mut reader, &mut pipe).unwrap();
    assert_eq!(
        chunk1.len(),
        MAX_BYTES_PER_FRAME,
        "first call should return exactly MAX_BYTES_PER_FRAME"
    );
    assert!(
        reader.overflow_len() > 0,
        "overflow should contain remaining data after first read"
    );

    pipe.closed = true;

    let chunk2 = match reader.begin_frame() {
        PtyStep::Return(frame) => frame,
        _ => panic!("no poll is needed"),
    };
    assert_eq!(
        chunk2.len(),
        MAX_BYTES_PER_FRAME,
        "second call should return the overflow data"
    );

    let mut all = chunk1;
    all.extend_from_slice(&chunk2);
    assert_eq!(all, data, "combined chunks must equal original data");
}

#[test]
fn more_than_the_read_buffer_is_spilled_in_order() {
    let data = pattern(READ_BUF_SIZE * 2 + 7);
    let mut pipe = Pipe { data: data.clone(), closed: false };
    let mut reader = PtyReader::new();
    reader.register();
    let mut collected = Vec::new();
    loop {
        let chunk = poll_read(&mut reader, &mut pipe).unwrap();
        if chunk.is_empty() {
            break;
        }
        assert!(chunk.len() <= MAX_BYTES_PER_FRAME);
        collected.extend_from_slice(&chunk);
    }
    assert_eq!(collected, data);
    assert_eq!(reader.overflow_len(), 0);
}

#[test]
fn an_unregistered_reader_refuses() {
    let mut reader = PtyReader::new();
    match reader.begin_frame() {
        PtyStep::Fail(e) => assert_eq!(e.message(), "PTY error: PtyReader not registered"),
        _ => panic!("the reader is not registered"),
    }
}

#[test]
fn a_failed_read_is_reported_only_without_data() {
    let mut reader = PtyReader::new();
    reader.register();
    match reader.after_read(ReadOutcome::Failed("broken".to_string())) {
        PtyStep::Fail(e) => assert_eq!(e.message(), "PTY error: read failed: broken"),
        _ => panic!("nothing was read"),
    }
    assert!(matches!(reader.after_read(ReadOutcome::Data(vec![1, 2])), PtyStep::Read(65534)));
    match reader.after_read(ReadOutcome::Failed("broken".to_string())) {
        PtyStep::Return(frame) => assert_eq!(frame, vec![1, 2]),
        _ => panic!("the data must not be lost"),
    }
    assert!(matches!(reader.after_read(ReadOutcome::Eof), PtyStep::Return(frame) if frame.is_empty()));
}

#[test]
fn test_reaper_collects_pid() {
    let mut reaper = Reaper::new();
    let pid = 4711;
    reaper.track(pid);
    let pids = reaper.reaper_pids();
    assert!(pids.contains(&pid), "expected PID {pid} in reaper list, got {pids:?}");
}

#[test]
fn test_reap_zombies_cleans_exited() {
    let mut reaper = Reaper::new();
    let pid = 300;
    reaper.track(pid);
    assert!(reaper.reaper_pids().contains(&pid));
    reaper.reap_zombies(&vec![WaitOutcome::Changed]);
    assert!(!reaper.reaper_pids().contains(&pid), "PID {pid} should have been reaped");
}

#[test]
fn test_reap_zombies_keeps_alive() {
    let mut reaper = Reaper::default();
    let pid = 300;
    reaper.track(pid);
    reaper.reap_zombies(&vec![WaitOutcome::StillAlive]);
    assert!(
        reaper.reaper_pids().contains(&pid),
        "PID {pid} should still be in the reaper (process is alive)"
    );
}

#[test]
fn reaping_keeps_the_order_of_the_running() {
    let mut reaper = Reaper::new();
    for pid in [5, 3, 9, 1] {
        reaper.track(pid);
    }
    reaper.reap_zombies(&vec![
        WaitOutcome::StillAlive,
        WaitOutcome::Failed,
        WaitOutcome::StillAlive,
        WaitOutcome::Changed,
    ]);
    assert_eq!(*reaper.reaper_pids(), vec![5, 9]);
}

#[test]
fn only_a_running_child_is_alive() {
    assert!(is_alive(WaitOutcome::StillAlive));
    assert!(!is_alive(WaitOutcome::Changed));
    assert!(!is_alive(WaitOutcome::Failed));
}

#[test]
fn sizes_and_shells() {
    let size = PtySize::new(80, 24);
    assert_eq!((size.cols, size.rows, size.pixel_width, size.pixel_height), (80, 24, 0, 0));
    assert_eq!(default_shell(), "/bin/zsh");
    assert_eq!(file_name("/bin/zsh"), "zsh");
    assert_eq!(login_name("/usr/local/bin/fish"), "-fish");
}
