use hoc_bridge::protocol::AgentState;
use hoc_bridge::pty::PtyError;
use hoc_bridge::session::{AgentSession, SessionError, SpawnConfig};

#[test]
fn test_spawn_config_new() {
    let config = SpawnConfig::new("/test/path");
    assert_eq!(config.project_path, "/test/path");
    assert_eq!(config.cols, 80);
    assert_eq!(config.rows, 24);
    assert!(config.preset.is_none());
}

#[test]
fn test_spawn_config_with_size() {
    let config = SpawnConfig::new("/test/path").with_size(120, 40);
    assert_eq!(config.cols, 120);
    assert_eq!(config.rows, 40);
}

#[test]
fn test_spawn_config_with_preset() {
    let config = SpawnConfig::new("/test/path").with_preset("code-review");
    assert_eq!(config.preset, Some("code-review".to_string()));
}

#[test]
fn test_agent_session_new() {
    let session = AgentSession::new("/test/path");
    assert_eq!(session.project_path(), "/test/path");
    assert_eq!(session.cols(), 80);
    assert_eq!(session.rows(), 24);
}

#[test]
fn test_agent_session_with_config() {
    let config = SpawnConfig::new("/test/path").with_size(100, 50).with_preset("test");
    let session = AgentSession::with_config(config);
    assert_eq!(session.project_path(), "/test/path");
    assert_eq!(session.cols(), 100);
    assert_eq!(session.rows(), 50);
}

#[test]
fn test_agent_session_initial_state() {
    let session = AgentSession::new("/test/path");
    assert_eq!(session.state(), AgentState::Stopped);
    assert!(!session.is_running());
}

#[test]
fn session_test_spawn_invalid_path() {
    let mut session = AgentSession::new("/nonexistent/path/that/does/not/exist");
    let result = session.spawn(false, false);
    assert!(result.is_err());
    match result {
        Err(SessionError::InvalidPath(_)) => {}
        _ => panic!("Expected InvalidPath error"),
    }
}

#[test]
fn test_write_input_not_running() {
    let session = AgentSession::new("/tmp");
    let result = session.write_input();
    assert!(result.is_err());
    match result {
        Err(SessionError::NotRunning) => {}
        _ => panic!("Expected NotRunning error"),
    }
}

#[test]
fn spawn_of_file_path_is_rejected_with_its_text() {
    let mut session = AgentSession::new("/etc/hosts");
    match session.spawn(true, false) {
        Err(SessionError::InvalidPath(m)) => assert_eq!(m, "Project path is not a directory: /etc/hosts"),
        _ => panic!("Expected InvalidPath error"),
    }
    assert_eq!(session.state(), AgentState::Stopped);
}

#[test]
fn session_lifecycle_runs_to_stopped_with_one_exit() {
    let config = SpawnConfig::new("/tmp").with_size(100, 30).with_command("cat");
    let mut session = AgentSession::with_config(config);
    let cmd = session.spawn(true, true).unwrap();
    assert_eq!(cmd.program, "cat");
    assert_eq!(cmd.cwd, "/tmp");
    assert_eq!((cmd.size.cols, cmd.size.rows), (100, 30));
    assert_eq!(session.state(), AgentState::Starting);
    assert!(matches!(session.spawn(true, true), Err(SessionError::AlreadyRunning)));

    session.spawn_finished(Ok(())).unwrap();
    assert_eq!(session.state(), AgentState::Running);
    assert!(session.write_input().is_ok());
    assert!(matches!(session.spawn(true, true), Err(SessionError::AlreadyRunning)));
    assert!(session.poll_exit().is_none());

    session.kill().unwrap();
    assert_eq!(session.state(), AgentState::Stopping);
    assert!(matches!(
        session.write_input(),
        Err(SessionError::PtyError(PtyError::ProcessExited))
    ));
    let exit = session.poll_exit().unwrap();
    assert_eq!(exit.session_id, session.id());
    assert_eq!(session.state(), AgentState::Stopped);
    assert!(session.poll_exit().is_none());
}

#[test]
fn failed_launch_returns_to_stopped() {
    let mut session = AgentSession::new("/tmp");
    session.spawn(true, true).unwrap();
    let result = session.spawn_finished(Err(PtyError::SpawnFailed("no such program".to_string())));
    match result {
        Err(SessionError::SpawnFailed(m)) => assert_eq!(m, "Failed to spawn process: no such program"),
        _ => panic!("Expected SpawnFailed"),
    }
    assert_eq!(session.state(), AgentState::Stopped);
}

#[test]
fn resize_changes_size_only_when_the_terminal_agrees() {
    let mut session = AgentSession::new("/tmp");
    assert!(matches!(session.resize(120, 40, Ok(())), Err(SessionError::NotRunning)));
    session.spawn(true, true).unwrap();
    session.spawn_finished(Ok(())).unwrap();
    assert!(session.resize(90, 30, Err("ioctl failed".to_string())).is_err());
    assert_eq!((session.cols(), session.rows()), (80, 24));
    session.resize(120, 40, Ok(())).unwrap();
    assert_eq!((session.cols(), session.rows()), (120, 40));
}
