use hoc_bridge::pty::{reader_action, ExitReason, PtyError, PtyProcess, ReadOutcome, ReaderAction, TerminalSize};

#[test]
fn test_terminal_size_default() {
    let size = TerminalSize::default();
    assert_eq!(size.cols, 80);
    assert_eq!(size.rows, 24);
}

#[test]
fn test_terminal_size_custom() {
    let size = TerminalSize::new(120, 40);
    assert_eq!(size.cols, 120);
    assert_eq!(size.rows, 40);
}

#[test]
fn test_exit_reason() {
    assert_eq!(ExitReason::Normal, ExitReason::Normal);
    assert_ne!(ExitReason::Normal, ExitReason::Killed);
}

#[test]
fn reader_decides_after_each_read() {
    assert_eq!(reader_action(&ReadOutcome::Bytes(vec![1])), ReaderAction::Forward);
    assert_eq!(reader_action(&ReadOutcome::Bytes(vec![])), ReaderAction::Stop);
    assert_eq!(reader_action(&ReadOutcome::WouldBlock), ReaderAction::Retry);
    assert_eq!(reader_action(&ReadOutcome::Failed), ReaderAction::Stop);
    assert_eq!(reader_action(&ReadOutcome::Shutdown), ReaderAction::Stop);
}

#[test]
fn kill_is_idempotent_and_keeps_the_first_exit() {
    let mut p = PtyProcess::started(TerminalSize::default());
    assert!(!p.has_exited());
    assert!(p.check_write().is_ok());
    p.record_read(&ReadOutcome::Bytes(vec![]));
    assert_eq!(p.exit_info().unwrap().reason, ExitReason::Normal);
    p.kill().unwrap();
    assert_eq!(p.exit_info().unwrap().reason, ExitReason::Normal);
    assert_eq!(p.check_write(), Err(PtyError::ProcessExited));

    let mut q = PtyProcess::started(TerminalSize::default());
    q.kill().unwrap();
    q.kill().unwrap();
    assert_eq!(q.exit_info().unwrap().reason, ExitReason::Killed);
    assert!(q.has_exited());
}

#[test]
fn resize_updates_the_size_until_exit() {
    let mut p = PtyProcess::started(TerminalSize::default());
    p.resize(120, 40, Ok(())).unwrap();
    assert_eq!(p.size(), TerminalSize::new(120, 40));
    assert_eq!(p.resize(10, 10, Err("bad".to_string())), Err(PtyError::ResizeFailed("bad".to_string())));
    assert_eq!(p.size(), TerminalSize::new(120, 40));
    p.kill().unwrap();
    assert_eq!(p.resize(10, 10, Ok(())), Err(PtyError::ProcessExited));
}
