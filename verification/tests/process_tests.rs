use proclog::process::{
    drain_step, finish_run, Data, Process, ProcessState, RunError, StreamEvent, WaitOutcome,
    WatchResult, Watcher,
};
use proclog::server::Server;
use proclog::signal::ChangeSignal;

/// Drive a watcher until it reports the terminal event, gathering all
/// output bytes seen on the way. Panics if the watcher would block.
fn drain_watcher(watcher: &mut Watcher, data: &Data) -> (Vec<u8>, Option<i32>) {
    let mut bytes = Vec::new();
    loop {
        match watcher.poll(data) {
            Some(WatchResult::OutputChunk(chunk)) => bytes.extend_from_slice(&chunk),
            Some(WatchResult::Exited(code)) => return (bytes, code),
            None => panic!("watcher would block on a finished process"),
        }
    }
}

#[test]
fn change_signal_versions() {
    let mut signal = ChangeSignal::new();
    let seen = signal.current();
    assert!(!signal.changed_since(seen));
    signal.notify();
    assert!(signal.changed_since(seen));
    let seen = signal.current();
    signal.notify();
    signal.notify();
    assert!(signal.changed_since(seen));
}

#[test]
fn poll_waits_while_running_and_drained() {
    let data = Data::new();
    let mut watcher = Watcher::new();
    assert_eq!(watcher.poll(&data), None);
    assert_eq!(watcher.poll(&data), None);
}

#[test]
fn drain_before_exit() {
    let mut state = ProcessState::new();
    assert!(drain_step(&mut state, &StreamEvent::Data(b"buffered".to_vec())));
    let result = finish_run(&mut state, &WaitOutcome::Completed(Some(0)));
    assert_eq!(result, Ok(Some(0)));

    // Termination is already recorded, but the unread bytes still come
    // first.
    let mut watcher = Watcher::new();
    match watcher.poll(&state.data) {
        Some(WatchResult::OutputChunk(chunk)) => assert_eq!(chunk, b"buffered".to_vec()),
        other => panic!("expected the buffered output first, got {:?}", other),
    }
    assert_eq!(watcher.poll(&state.data), Some(WatchResult::Exited(Some(0))));
}

#[test]
fn independent_watchers() {
    let mut state = ProcessState::new();

    // First watcher arrives while the process is running.
    let mut early = Watcher::new();
    assert!(drain_step(&mut state, &StreamEvent::Data(b"first ".to_vec())));
    match early.poll(&state.data) {
        Some(WatchResult::OutputChunk(chunk)) => assert_eq!(chunk, b"first ".to_vec()),
        other => panic!("expected output, got {:?}", other),
    }

    // More output, then a second watcher created later.
    assert!(drain_step(&mut state, &StreamEvent::Data(b"second".to_vec())));
    let mut late = Watcher::new();

    assert!(!drain_step(&mut state, &StreamEvent::Ended));
    finish_run(&mut state, &WaitOutcome::Completed(Some(7))).unwrap();

    let (early_rest, early_code) = drain_watcher(&mut early, &state.data);
    let (late_all, late_code) = drain_watcher(&mut late, &state.data);

    // Each retrieved the complete output from its own start point, and
    // both observed the same termination result.
    assert_eq!(early_rest, b"second".to_vec());
    assert_eq!(late_all, b"first second".to_vec());
    assert_eq!(early_code, Some(7));
    assert_eq!(late_code, Some(7));
}

#[test]
fn scenario_print_then_exit_zero() {
    // A command prints `hello` on its standard output and exits with 0:
    // stdout yields one run of bytes and ends, stderr ends at once, the
    // wait reports code 0.
    let mut state = ProcessState::new();
    assert!(drain_step(&mut state, &StreamEvent::Data(b"hello\n".to_vec())));
    assert!(!drain_step(&mut state, &StreamEvent::Ended));
    assert!(!drain_step(&mut state, &StreamEvent::Ended));
    let result = finish_run(&mut state, &WaitOutcome::Completed(Some(0)));
    assert_eq!(result, Ok(Some(0)));

    let mut watcher = Watcher::new();
    assert_eq!(
        watcher.poll(&state.data),
        Some(WatchResult::OutputChunk(b"hello\n".to_vec()))
    );
    assert_eq!(watcher.poll(&state.data), Some(WatchResult::Exited(Some(0))));
}

#[test]
fn scenario_exit_one_no_output() {
    // A command exits with code 1 and produces no output: the watcher sees
    // the terminal event only.
    let mut state = ProcessState::new();
    assert!(!drain_step(&mut state, &StreamEvent::Ended));
    assert!(!drain_step(&mut state, &StreamEvent::Ended));
    let result = finish_run(&mut state, &WaitOutcome::Completed(Some(1)));
    assert_eq!(result, Ok(Some(1)));

    let mut watcher = Watcher::new();
    assert_eq!(watcher.poll(&state.data), Some(WatchResult::Exited(Some(1))));
}

#[test]
fn scenario_three_appends_one_block() {
    // Appending "Hello ", "world", "!" with the fixed block capacity gives
    // a single block holding 12 bytes whose drained content reads
    // "Hello world!".
    let mut state = ProcessState::new();
    assert!(drain_step(&mut state, &StreamEvent::Data(b"Hello ".to_vec())));
    assert!(drain_step(&mut state, &StreamEvent::Data(b"world".to_vec())));
    assert!(drain_step(&mut state, &StreamEvent::Data(b"!".to_vec())));

    assert_eq!(state.data.output.block_count(), 1);
    assert_eq!(state.data.output.last_fill(), 12);

    let mut watcher = Watcher::new();
    let mut drained = Vec::new();
    loop {
        match watcher.poll(&state.data) {
            Some(WatchResult::OutputChunk(chunk)) => drained.extend_from_slice(&chunk),
            Some(WatchResult::Exited(_)) => panic!("no termination was recorded"),
            None => break,
        }
    }
    assert_eq!(drained, b"Hello world!".to_vec());
}

#[test]
fn exit_without_code() {
    let mut state = ProcessState::new();
    let result = finish_run(&mut state, &WaitOutcome::Completed(None));
    assert_eq!(result, Ok(None));
    let mut watcher = Watcher::new();
    assert_eq!(watcher.poll(&state.data), Some(WatchResult::Exited(None)));
}

#[test]
fn wait_failure_records_nothing() {
    let mut state = ProcessState::new();
    assert!(drain_step(&mut state, &StreamEvent::Data(b"partial".to_vec())));
    let result = finish_run(&mut state, &WaitOutcome::Failed);
    assert_eq!(result, Err(RunError::WaitFailed));
    assert_eq!(state.data.exit_code, None);

    // A watcher drains the partial output and then waits: no terminal
    // event was recorded.
    let mut watcher = Watcher::new();
    match watcher.poll(&state.data) {
        Some(WatchResult::OutputChunk(chunk)) => assert_eq!(chunk, b"partial".to_vec()),
        other => panic!("expected output, got {:?}", other),
    }
    assert_eq!(watcher.poll(&state.data), None);
}

#[test]
fn run_error_messages() {
    assert_eq!(RunError::SpawnFailed.message(), "Could not spawn process");
    assert_eq!(RunError::WaitFailed.message(), "Could not wait for process");
}

#[test]
fn signal_notified_on_every_change() {
    let mut state = ProcessState::new();
    let seen = state.signal.current();
    assert!(drain_step(&mut state, &StreamEvent::Data(b"x".to_vec())));
    assert!(state.signal.changed_since(seen));
    let seen = state.signal.current();
    finish_run(&mut state, &WaitOutcome::Completed(Some(0))).unwrap();
    assert!(state.signal.changed_since(seen));
}

#[test]
fn process_starts_fresh() {
    let process = Process::new(String::from("echo hello"));
    assert_eq!(process.command, "echo hello");
    assert_eq!(process.state.data.output.len(), 0);
    assert_eq!(process.state.data.exit_code, None);
    let mut watcher = process.watch();
    assert_eq!(watcher.poll(&process.state.data), None);
}

#[test]
fn server_registry() {
    let mut server = Server::new();
    let first = server.submit(String::from("true")).unwrap();
    let second = server.submit(String::from("false")).unwrap();
    assert_ne!(first.raw(), second.raw());
    assert_eq!(first.raw(), 1);
    assert_eq!(second.raw(), 2);

    let process = server.get(first).unwrap();
    assert_eq!(process.command, "true");
    let process = server.get(second).unwrap();
    assert_eq!(process.command, "false");

    let third = server.alloc_pid();
    assert_eq!(third.raw(), 3);
    assert!(server.get(third).is_none());
}
