use hoc_bridge::config::{spawn_config_for, AgentPreset, ProjectConfig, ServerConfig};
use hoc_bridge::connection::{
    decode_request, event_message, frame_action, handle_message, kill_reply, spawn_plan, AuthFrame, AuthStep,
    ConnectionHandler, Frame, FrameAction, Outside, Request,
};
use hoc_bridge::manager::{AgentEvent, AgentManager, ManagerError};
use hoc_bridge::protocol::{ErrorCode, ServerMessage};

#[test]
fn test_server_config() {
    let config = ServerConfig::new("127.0.0.1".to_string(), 9000);
    assert_eq!(config.socket_addr(), "127.0.0.1:9000");
}

#[test]
fn test_server_config_with_token() {
    let config = ServerConfig::new("0.0.0.0".to_string(), 8080).with_token(Some("secret".to_string()));
    assert_eq!(config.token, Some("secret".to_string()));
}

#[test]
fn test_handle_ping_message() {
    let mut agent_manager = AgentManager::new();
    let msg = r#"{"type": "ping", "seq": 42}"#;
    let response = handle_message(msg, "sh", &mut agent_manager, Outside::nothing()).reply;
    match response {
        Some(ServerMessage::Pong { seq }) => assert_eq!(seq, 42),
        _ => panic!("Expected Some(Pong) response"),
    }
}

fn error_code(r: &Request) -> Option<ErrorCode> {
    match r {
        Request::Reply(ServerMessage::Error { code, .. }) => *code,
        _ => None,
    }
}

#[test]
fn ping_is_answered_with_pong_after_welcome() {
    let welcome = ServerMessage::welcome().to_json();
    assert_eq!(welcome, r#"{"type":"welcome","version":1}"#);
    match decode_request(r#"{"type":"ping","seq":7}"#) {
        Request::Reply(m) => assert_eq!(m.to_json(), r#"{"type":"pong","seq":7}"#),
        _ => panic!("Expected a reply"),
    }
}

#[test]
fn malformed_unknown_and_old_messages_get_error_codes() {
    assert_eq!(error_code(&decode_request("not json")), Some(ErrorCode::InvalidMessage));
    assert_eq!(error_code(&decode_request(r#"{"type":"dance"}"#)), Some(ErrorCode::InvalidMessage));
    assert_eq!(error_code(&decode_request(r#"{"seq":1}"#)), Some(ErrorCode::InvalidMessage));
    assert_eq!(
        error_code(&decode_request(r#"{"version":0,"type":"ping","seq":1}"#)),
        Some(ErrorCode::UnsupportedVersion)
    );
    assert_eq!(
        error_code(&decode_request(
            r#"{"type":"resize_terminal","agent_id":"67e55044-10b1-426f-9247-bb680e5fe0c8","cols":501,"rows":40}"#
        )),
        Some(ErrorCode::InvalidMessage)
    );
    assert_eq!(
        error_code(&decode_request(r#"{"type":"authenticate","token":"x"}"#)),
        Some(ErrorCode::InvalidMessage)
    );
}

#[test]
fn requests_are_dispatched_with_their_fields() {
    let r = decode_request(
        r#"{"type":"resize_terminal","agent_id":"67e55044-10b1-426f-9247-bb680e5fe0c8","cols":120,"rows":40}"#,
    );
    assert_eq!(
        r,
        Request::Resize { agent_id: 0x67e5_5044_10b1_426f_9247_bb68_0e5f_e0c8, cols: 120, rows: 40 }
    );
    assert_eq!(decode_request(r#"{"type":"list_agents"}"#), Request::List);
    match decode_request(r#"{"type":"spawn_agent","project_path":"/nonexistent/xyz"}"#) {
        Request::Spawn { project_path, preset, cols, rows } => {
            assert_eq!(project_path, "/nonexistent/xyz");
            assert_eq!((preset, cols, rows), (None, None, None));
        }
        _ => panic!("Expected Spawn"),
    }
}

#[test]
fn spawn_of_missing_path_is_invalid_path() {
    let r = spawn_plan("sh", "/nonexistent/xyz", None, None, None, false, false, &ProjectConfig::default());
    match r {
        Err(ServerMessage::Error { code, message, .. }) => {
            assert_eq!(code, Some(ErrorCode::InvalidPath));
            assert_eq!(message, "Project path does not exist: /nonexistent/xyz");
        }
        _ => panic!("Expected invalid_path"),
    }
    assert!(matches!(decode_request(r#"{"type":"ping","seq":1}"#), Request::Reply(ServerMessage::Pong { seq: 1 })));
}

#[test]
fn auth_gate_rejects_a_first_ping_and_accepts_the_token() {
    let mut h = ConnectionHandler::with_token(Some("secret".to_string()));
    assert!(h.needs_auth());
    match h.on_auth_frame(&AuthFrame::Text(r#"{"type":"ping","seq":1}"#.to_string())) {
        AuthStep::Rejected(ServerMessage::Error { code, .. }) => assert_eq!(code, Some(ErrorCode::AuthFailed)),
        _ => panic!("Expected rejection"),
    }
    assert!(h.needs_auth());

    let mut h = ConnectionHandler::with_token(Some("secret".to_string()));
    assert_eq!(h.on_auth_frame(&AuthFrame::Ping), AuthStep::Wait);
    let wrong = h.on_auth_frame(&AuthFrame::Text(r#"{"type":"authenticate","token":"nope"}"#.to_string()));
    assert!(matches!(wrong, AuthStep::Rejected(_)));
    let right = h.on_auth_frame(&AuthFrame::Text(r#"{"type":"authenticate","token":"secret"}"#.to_string()));
    assert_eq!(right, AuthStep::Accepted(ServerMessage::AuthSuccess));
    assert!(!h.needs_auth());
    assert!(matches!(h.on_auth_frame(&AuthFrame::TimedOut), AuthStep::Rejected(_)));
}

#[test]
fn open_server_needs_no_handshake() {
    assert!(!ConnectionHandler::new().needs_auth());
    assert!(!ConnectionHandler::default().needs_auth());
    assert!(!ConnectionHandler::with_token(None).needs_auth());
}

#[test]
fn frames_map_to_actions() {
    assert_eq!(frame_action(Frame::Text("x".to_string())), FrameAction::Dispatch("x".to_string()));
    assert_eq!(frame_action(Frame::Ping(vec![1, 2])), FrameAction::Pong(vec![1, 2]));
    assert_eq!(frame_action(Frame::Binary(3)), FrameAction::Ignore);
    assert_eq!(frame_action(Frame::Close), FrameAction::Stop);
    assert_eq!(frame_action(Frame::Ended), FrameAction::Stop);
}

#[test]
fn events_become_messages_except_spawned() {
    let id = 5u128;
    let spawned = AgentEvent::Spawned { agent_id: id, project_path: "/p".to_string(), cols: 80, rows: 24 };
    assert!(event_message(&spawned).is_none());
    let out = AgentEvent::Output { agent_id: id, data: b"hello\xff".to_vec() };
    assert_eq!(event_message(&out), Some(ServerMessage::AgentOutput { agent_id: id, data: "hello\u{fffd}".to_string() }));
    let exited = AgentEvent::Exited { agent_id: id, exit_code: None, reason: "Killed".to_string() };
    assert_eq!(
        event_message(&exited),
        Some(ServerMessage::AgentExited { agent_id: id, exit_code: None, reason: Some("Killed".to_string()) })
    );
}

#[test]
fn kill_reply_names_the_error() {
    let m = kill_reply(9, &Err(ManagerError::AgentNotFound(9)));
    match m {
        ServerMessage::Error { message, code, agent_id } => {
            assert_eq!(message, "Failed to kill agent: Agent not found: 00000000-0000-0000-0000-000000000009");
            assert_eq!(code, Some(ErrorCode::AgentNotFound));
            assert_eq!(agent_id, Some(9));
        }
        _ => panic!("Expected error"),
    }
    assert_eq!(kill_reply(9, &Ok(())), ServerMessage::AgentExited { agent_id: 9, exit_code: None, reason: None });
}

#[test]
fn presets_fill_the_spawn_configuration() {
    let project = ProjectConfig {
        presets: vec![
            AgentPreset { name: "dev".to_string(), args: vec!["--fast".to_string()], initial_prompt: Some("hi".to_string()) },
            AgentPreset { name: "plain".to_string(), args: vec![], initial_prompt: None },
        ],
        default_preset: Some("plain".to_string()),
    };
    assert_eq!(project.get_preset("dev").unwrap().args, vec!["--fast".to_string()]);
    assert!(project.get_preset("missing").is_none());
    assert_eq!(project.default_preset().unwrap().name, "plain");

    let c = spawn_config_for("sh", "/p", Some("dev"), Some(120), None, &project);
    assert_eq!((c.cols, c.rows), (120, 24));
    assert_eq!(c.preset, Some("dev".to_string()));
    assert_eq!(c.args, vec!["--fast".to_string()]);
    assert_eq!(c.initial_prompt, Some("hi".to_string()));

    let c = spawn_config_for("sh", "/p", None, None, None, &project);
    assert_eq!(c.preset, Some("plain".to_string()));
    assert!(c.args.is_empty());
    assert!(c.initial_prompt.is_none());

    let c = spawn_config_for("sh", "/p", Some("missing"), None, None, &project);
    assert_eq!(c.preset, Some("missing".to_string()));
    assert!(c.args.is_empty());
}

const LIVE: &str = "67e55044-10b1-426f-9247-bb680e5fe0c8";

fn live_facts() -> Outside {
    let mut o = Outside::nothing();
    o.path_exists = true;
    o.path_is_dir = true;
    o
}

fn spawn_live(m: &mut AgentManager) -> u128 {
    let h = handle_message(r#"{"type":"spawn_agent","project_path":"/tmp"}"#, "sh", m, live_facts());
    let id = h.spawned.unwrap();
    assert_eq!(h.drawn, Some(id));
    assert_eq!(
        h.reply,
        Some(ServerMessage::AgentSpawned { agent_id: id, project_path: "/tmp".to_string(), cols: 80, rows: 24 })
    );
    assert_eq!(h.events.len(), 1);
    assert!(m.agent_exists(id));
    id
}

fn agent_error(h: &Option<ServerMessage>) -> (Option<ErrorCode>, Option<u128>) {
    match h {
        Some(ServerMessage::Error { code, agent_id, .. }) => (*code, *agent_id),
        _ => panic!("Expected an error reply"),
    }
}

#[test]
fn spawn_replies_with_the_requested_or_default_size() {
    let mut m = AgentManager::new();
    spawn_live(&mut m);
    let h = handle_message(
        r#"{"type":"spawn_agent","project_path":"/tmp","cols":120,"rows":40}"#,
        "sh",
        &mut m,
        live_facts(),
    );
    let id = h.spawned.unwrap();
    assert_eq!(
        h.reply,
        Some(ServerMessage::AgentSpawned { agent_id: id, project_path: "/tmp".to_string(), cols: 120, rows: 40 })
    );
    assert_eq!(m.list_agents().len(), 2);
}

#[test]
fn spawn_of_missing_path_creates_no_session() {
    let mut m = AgentManager::new();
    let h = handle_message(r#"{"type":"spawn_agent","project_path":"/nonexistent/xyz"}"#, "sh", &mut m, Outside::nothing());
    assert_eq!(agent_error(&h.reply), (Some(ErrorCode::InvalidPath), None));
    assert!(h.spawned.is_none() && h.events.is_empty());
    assert!(m.list_agents().is_empty());
    let h = handle_message(r#"{"type":"ping","seq":3}"#, "sh", &mut m, Outside::nothing());
    assert_eq!(h.reply, Some(ServerMessage::Pong { seq: 3 }));
}

#[test]
fn failed_launch_replies_spawn_failed() {
    let mut m = AgentManager::new();
    let mut o = live_facts();
    o.launched = Err(hoc_bridge::pty::PtyError::SpawnFailed("no program".to_string()));
    let h = handle_message(r#"{"type":"spawn_agent","project_path":"/tmp"}"#, "sh", &mut m, o);
    assert_eq!(agent_error(&h.reply), (Some(ErrorCode::SpawnFailed), None));
    assert_eq!(m.session_count(), 0);
}

#[test]
fn kill_replies_exited_and_keeps_the_agent_registered() {
    let mut m = AgentManager::new();
    let id = spawn_live(&mut m);
    let text = format!(r#"{{"type":"kill_agent","agent_id":"{}","signal":9}}"#, hyphenated(id));
    let h = handle_message(&text, "sh", &mut m, Outside::nothing());
    assert_eq!(h.reply, Some(ServerMessage::AgentExited { agent_id: id, exit_code: None, reason: None }));
    assert_eq!(h.killed, Some(id));
    assert!(m.agent_exists(id));
}

fn hyphenated(id: u128) -> String {
    let h = format!("{:032x}", id);
    format!("{}-{}-{}-{}-{}", &h[0..8], &h[8..12], &h[12..16], &h[16..20], &h[20..32])
}

#[test]
fn resize_of_live_agent_replies_resized() {
    let mut m = AgentManager::new();
    let id = spawn_live(&mut m);
    let text = format!(r#"{{"type":"resize_terminal","agent_id":"{}","cols":120,"rows":40}}"#, hyphenated(id));
    let h = handle_message(&text, "sh", &mut m, Outside::nothing());
    assert_eq!(h.reply, Some(ServerMessage::AgentResized { agent_id: id, cols: 120, rows: 40 }));
    let status = format!(r#"{{"type":"get_agent_status","agent_id":"{}"}}"#, hyphenated(id));
    match handle_message(&status, "sh", &mut m, Outside::nothing()).reply {
        Some(ServerMessage::AgentStatus { cols, rows, .. }) => assert_eq!((cols, rows), (120, 40)),
        _ => panic!("Expected agent_status"),
    }
    let mut o = Outside::nothing();
    o.resized = Err("ioctl failed".to_string());
    let text = format!(r#"{{"type":"resize_terminal","agent_id":"{}","cols":90,"rows":30}}"#, hyphenated(id));
    let h = handle_message(&text, "sh", &mut m, o);
    assert_eq!(agent_error(&h.reply), (Some(ErrorCode::InternalError), Some(id)));
    assert_eq!(m.get_agent_status(id).unwrap().cols, 120);
}

#[test]
fn unknown_agents_get_not_found_or_internal_error() {
    let mut m = AgentManager::new();
    let id = 0x67e5_5044_10b1_426f_9247_bb68_0e5f_e0c8u128;
    for t in ["get_agent_status", "kill_agent"] {
        let text = format!(r#"{{"type":"{}","agent_id":"{}"}}"#, t, LIVE);
        let h = handle_message(&text, "sh", &mut m, Outside::nothing());
        assert_eq!(agent_error(&h.reply), (Some(ErrorCode::AgentNotFound), Some(id)));
        assert!(h.events.is_empty());
    }
    let text = format!(r#"{{"type":"resize_terminal","agent_id":"{}","cols":80,"rows":24}}"#, LIVE);
    let h = handle_message(&text, "sh", &mut m, Outside::nothing());
    assert_eq!(agent_error(&h.reply), (Some(ErrorCode::AgentNotFound), Some(id)));
    let text = format!(r#"{{"type":"agent_input","agent_id":"{}","input":"x"}}"#, LIVE);
    let h = handle_message(&text, "sh", &mut m, Outside::nothing());
    assert_eq!(agent_error(&h.reply), (Some(ErrorCode::InternalError), Some(id)));
}

#[test]
fn input_to_live_agent_has_no_reply() {
    let mut m = AgentManager::new();
    let id = spawn_live(&mut m);
    let text = format!(r#"{{"type":"agent_input","agent_id":"{}","input":"ls\n"}}"#, hyphenated(id));
    assert!(handle_message(&text, "sh", &mut m, Outside::nothing()).reply.is_none());
    let mut o = Outside::nothing();
    o.written = Err(hoc_bridge::pty::PtyError::WriteFailed("closed".to_string()));
    let h = handle_message(&text, "sh", &mut m, o);
    assert_eq!(agent_error(&h.reply), (Some(ErrorCode::InternalError), Some(id)));
}

#[test]
fn output_reaches_a_client_only_after_the_agent_was_announced_to_it() {
    let mut h = ConnectionHandler::new();
    let out = ServerMessage::AgentOutput { agent_id: 7, data: "hello".to_string() };
    assert_eq!(h.outgoing(out.clone()), None);
    assert_eq!(h.outgoing(ServerMessage::pong(1)), Some(ServerMessage::pong(1)));
    let spawned = ServerMessage::agent_spawned(7, "/tmp", 80, 24);
    assert_eq!(h.outgoing(spawned.clone()), Some(spawned));
    assert_eq!(h.outgoing(out.clone()), Some(out));
    let other = ServerMessage::AgentOutput { agent_id: 8, data: "x".to_string() };
    assert_eq!(h.outgoing(other), None);
    let exited = ServerMessage::agent_exited(8, None);
    assert_eq!(h.outgoing(exited.clone()), Some(exited));
}
