use hoc_bridge::manager::{AgentEvent, AgentManager, ManagerError};
use hoc_bridge::protocol::AgentState;
use hoc_bridge::pty::{ExitReason, ReadOutcome};
use hoc_bridge::session::SpawnConfig;

fn spawn_running(m: &mut AgentManager, path: &str) -> u128 {
    let (session, _cmd) = AgentManager::prepare_spawn(SpawnConfig::new(path), true, true).unwrap();
    let (id, event) = m.spawn_agent(session, Ok(())).unwrap();
    assert!(matches!(event, AgentEvent::Spawned { agent_id, .. } if agent_id == id));
    id
}

#[test]
fn test_manager_new() {
    let manager = AgentManager::new();
    assert_eq!(manager.session_count(), 0);
}

#[test]
fn test_agent_not_found() {
    let mut manager = AgentManager::new();
    let fake_id = 0x1234u128;

    let result = manager.send_input(fake_id);
    assert!(matches!(result, Err(ManagerError::AgentNotFound(_))));

    let result = manager.kill_agent(fake_id);
    assert!(matches!(result, Err(ManagerError::AgentNotFound(_))));

    let result = manager.get_agent_status(fake_id);
    assert!(matches!(result, Err(ManagerError::AgentNotFound(_))));
}

#[test]
fn test_agent_exists() {
    let manager = AgentManager::new();
    assert!(!manager.agent_exists(0x1234u128));
}

#[test]
fn test_list_agents_empty() {
    let manager = AgentManager::new();
    let agents = manager.list_agents();
    assert!(agents.is_empty());
}

#[test]
fn manager_test_spawn_invalid_path() {
    let manager = AgentManager::new();
    let config = SpawnConfig::new("/nonexistent/path/that/does/not/exist");
    let result = AgentManager::prepare_spawn(config, false, false);
    assert!(result.is_err());
    assert_eq!(manager.session_count(), 0);
}

#[test]
fn test_manager_default() {
    let manager = AgentManager::default();
    assert_eq!(manager.session_count(), 0);
}

#[test]
fn spawn_output_and_exit_are_published_in_order() {
    let mut m = AgentManager::new();
    let id = spawn_running(&mut m, "/tmp");
    assert!(m.agent_exists(id));
    assert_eq!(m.list_agents().len(), 1);

    let out = m.on_read(id, ReadOutcome::Bytes(b"hello\r\n".to_vec())).unwrap();
    assert_eq!(out, AgentEvent::Output { agent_id: id, data: b"hello\r\n".to_vec() });
    assert!(m.on_read(id, ReadOutcome::WouldBlock).is_none());

    let exit = m.on_read(id, ReadOutcome::Bytes(vec![])).unwrap();
    assert_eq!(exit, AgentEvent::Exited { agent_id: id, exit_code: None, reason: "Normal".to_string() });
    assert!(!m.agent_exists(id));
    assert!(m.list_agents().is_empty());
    assert!(m.on_read(id, ReadOutcome::Bytes(b"late".to_vec())).is_none());
    assert!(m.poll_exit(id).is_none());
}

#[test]
fn failed_launch_leaves_registry_untouched() {
    let mut m = AgentManager::new();
    let (session, _) = AgentManager::prepare_spawn(SpawnConfig::new("/tmp"), true, true).unwrap();
    let r = m.spawn_agent(session, Err(hoc_bridge::pty::PtyError::SpawnFailed("boom".to_string())));
    assert!(r.is_err());
    assert_eq!(m.session_count(), 0);
}

#[test]
fn kill_keeps_the_agent_until_its_exit_is_polled() {
    let mut m = AgentManager::new();
    let id = spawn_running(&mut m, "/tmp");
    m.kill_agent(id).unwrap();
    assert_eq!(m.agent_state(id).unwrap(), AgentState::Stopping);
    assert!(m.agent_exists(id));
    assert!(m.send_input(id).is_err());
    let exit = m.poll_exit(id).unwrap();
    assert_eq!(exit, AgentEvent::Exited { agent_id: id, exit_code: None, reason: "Killed".to_string() });
    assert!(!m.agent_exists(id));
    assert!(matches!(m.kill_agent(id), Err(ManagerError::AgentNotFound(_))));
}

#[test]
fn resize_is_reflected_in_status() {
    let mut m = AgentManager::new();
    let id = spawn_running(&mut m, "/tmp");
    assert!(m.resize_target(id).is_ok());
    let ev = m.resize_agent(id, 120, 40, Ok(())).unwrap();
    assert_eq!(ev, AgentEvent::Resized { agent_id: id, cols: 120, rows: 40 });
    let info = m.get_agent_status(id).unwrap();
    assert_eq!((info.cols, info.rows), (120, 40));
    assert_eq!(info.status, AgentState::Running);
}

#[test]
fn shutdown_kills_every_session_and_exits_remove_them() {
    let mut m = AgentManager::new();
    let a = spawn_running(&mut m, "/tmp");
    let b = spawn_running(&mut m, "/");
    let killed = m.shutdown_all();
    assert_eq!(killed, vec![a, b]);
    for id in killed {
        assert!(matches!(m.poll_exit(id), Some(AgentEvent::Exited { .. })));
    }
    assert_eq!(m.session_count(), 0);
}

#[test]
fn read_failure_exits_with_unknown_reason() {
    let mut m = AgentManager::new();
    let id = spawn_running(&mut m, "/tmp");
    let ev = m.on_read(id, ReadOutcome::Failed).unwrap();
    let expected = ExitReason::Unknown.name().to_string();
    assert_eq!(ev, AgentEvent::Exited { agent_id: id, exit_code: None, reason: expected });
}
