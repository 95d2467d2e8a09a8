use hoc_bridge::protocol::{
    AgentId, AgentInfo, AgentState, ClientEnvelope, ClientMessage, ErrorCode, ProtocolError, ServerEnvelope,
    ServerMessage, MAX_INPUT_LENGTH, MAX_TERMINAL_COLS, PROTOCOL_VERSION,
};

const ID: AgentId = 0x67e5_5044_10b1_426f_9247_bb68_0e5f_e0c8;

#[test]
fn test_ping_serialization() {
    let msg = ClientMessage::ping(42);
    let json = msg.to_json();
    assert!(json.contains("\"type\":\"ping\""));
    assert!(json.contains("\"seq\":42"));

    let parsed = ClientMessage::from_json(&json).unwrap();
    assert_eq!(parsed, msg);
}

#[test]
fn test_spawn_agent_serialization() {
    let msg = ClientMessage::spawn_agent("/path/to/project");
    let json = msg.to_json();
    assert!(json.contains("\"type\":\"spawn_agent\""));
    assert!(json.contains("\"project_path\":\"/path/to/project\""));

    let parsed = ClientMessage::from_json(&json).unwrap();
    assert_eq!(parsed, msg);
}

#[test]
fn test_spawn_agent_with_preset_serialization() {
    let msg = ClientMessage::spawn_agent_with_preset("/path/to/project", "code-review");
    let json = msg.to_json();
    assert!(json.contains("\"preset\":\"code-review\""));

    let parsed = ClientMessage::from_json(&json).unwrap();
    assert_eq!(parsed, msg);
}

#[test]
fn test_agent_input_serialization() {
    let msg = ClientMessage::agent_input(ID, "hello world");
    let json = msg.to_json();
    assert!(json.contains("\"type\":\"agent_input\""));
    assert!(json.contains("\"input\":\"hello world\""));

    let parsed = ClientMessage::from_json(&json).unwrap();
    assert_eq!(parsed, msg);
}

#[test]
fn test_kill_agent_serialization() {
    let msg = ClientMessage::kill_agent(ID);
    let json = msg.to_json();
    assert!(json.contains("\"type\":\"kill_agent\""));

    let parsed = ClientMessage::from_json(&json).unwrap();
    assert_eq!(parsed, msg);
}

#[test]
fn test_resize_terminal_serialization() {
    let msg = ClientMessage::resize_terminal(ID, 120, 40);
    let json = msg.to_json();
    assert!(json.contains("\"type\":\"resize_terminal\""));
    assert!(json.contains("\"cols\":120"));
    assert!(json.contains("\"rows\":40"));

    let parsed = ClientMessage::from_json(&json).unwrap();
    assert_eq!(parsed, msg);
}

#[test]
fn test_list_agents_serialization() {
    let msg = ClientMessage::ListAgents;
    let json = msg.to_json();
    assert!(json.contains("\"type\":\"list_agents\""));

    let parsed = ClientMessage::from_json(&json).unwrap();
    assert_eq!(parsed, msg);
}

#[test]
fn test_welcome_serialization() {
    let msg = ServerMessage::welcome();
    let json = msg.to_json();
    assert!(json.contains("\"type\":\"welcome\""));
    assert!(json.contains(&format!("\"version\":{}", PROTOCOL_VERSION)));

    let parsed = ServerMessage::from_json(&json).unwrap();
    assert_eq!(parsed, msg);
}

#[test]
fn test_pong_serialization() {
    let msg = ServerMessage::pong(42);
    let json = msg.to_json();
    assert!(json.contains("\"type\":\"pong\""));
    assert!(json.contains("\"seq\":42"));

    let parsed = ServerMessage::from_json(&json).unwrap();
    assert_eq!(parsed, msg);
}

#[test]
fn test_agent_spawned_serialization() {
    let msg = ServerMessage::agent_spawned(ID, "/path/to/project", 80, 24);
    let json = msg.to_json();
    assert!(json.contains("\"type\":\"agent_spawned\""));
    assert!(json.contains("\"cols\":80"));
    assert!(json.contains("\"rows\":24"));

    let parsed = ServerMessage::from_json(&json).unwrap();
    assert_eq!(parsed, msg);
}

#[test]
fn test_agent_output_serialization() {
    let msg = ServerMessage::agent_output(ID, "Hello, World!\n");
    let json = msg.to_json();
    assert!(json.contains("\"type\":\"agent_output\""));
    assert!(json.contains("\"data\":\"Hello, World!\\n\""));

    let parsed = ServerMessage::from_json(&json).unwrap();
    assert_eq!(parsed, msg);
}

#[test]
fn test_agent_exited_serialization() {
    let msg = ServerMessage::agent_exited(ID, Some(0));
    let json = msg.to_json();
    assert!(json.contains("\"type\":\"agent_exited\""));
    assert!(json.contains("\"exit_code\":0"));

    let parsed = ServerMessage::from_json(&json).unwrap();
    assert_eq!(parsed, msg);
}

#[test]
fn test_error_serialization() {
    let msg = ServerMessage::error_with_code("Something went wrong", ErrorCode::InternalError);
    let json = msg.to_json();
    assert!(json.contains("\"type\":\"error\""));
    assert!(json.contains("\"message\":\"Something went wrong\""));
    assert!(json.contains("\"code\":\"internal_error\""));

    let parsed = ServerMessage::from_json(&json).unwrap();
    assert_eq!(parsed, msg);
}

#[test]
fn test_agent_list_serialization() {
    let msg = ServerMessage::AgentList {
        agents: vec![AgentInfo {
            agent_id: ID,
            project_path: "/path/to/project".to_string(),
            status: AgentState::Running,
            cols: 80,
            rows: 24,
        }],
    };
    let json = msg.to_json();
    assert!(json.contains("\"type\":\"agent_list\""));
    assert!(json.contains("\"status\":\"running\""));

    let parsed = ServerMessage::from_json(&json).unwrap();
    assert_eq!(parsed, msg);
}

#[test]
fn test_client_envelope_serialization() {
    let envelope = ClientEnvelope::new(ClientMessage::ping(1));
    let json = envelope.to_json();
    assert!(json.contains(&format!("\"version\":{}", PROTOCOL_VERSION)));
    assert!(json.contains("\"type\":\"ping\""));

    let parsed = ClientEnvelope::from_json(&json).unwrap();
    assert_eq!(parsed.version, PROTOCOL_VERSION);
}

#[test]
fn test_server_envelope_serialization() {
    let envelope = ServerEnvelope::new(ServerMessage::pong(1));
    let json = envelope.to_json();
    assert!(json.contains(&format!("\"version\":{}", PROTOCOL_VERSION)));
    assert!(json.contains("\"type\":\"pong\""));

    let parsed = ServerEnvelope::from_json(&json).unwrap();
    assert_eq!(parsed.version, PROTOCOL_VERSION);
}

#[test]
fn test_envelope_version_validation() {
    let json = r#"{"version": 0, "type": "ping", "seq": 1}"#;
    let result = ClientEnvelope::from_json(json);
    assert!(result.is_err());
    assert!(result.unwrap_err().to_string().contains("not supported"));
}

#[test]
fn test_spawn_agent_empty_path_validation() {
    let msg = ClientMessage::SpawnAgent {
        project_path: "".to_string(),
        preset: None,
        cols: None,
        rows: None,
    };
    let result = msg.validate();
    assert!(result.is_err());
    assert!(result.unwrap_err().to_string().contains("cannot be empty"));
}

#[test]
fn test_spawn_agent_empty_preset_validation() {
    let msg = ClientMessage::SpawnAgent {
        project_path: "/valid/path".to_string(),
        preset: Some("".to_string()),
        cols: None,
        rows: None,
    };
    let result = msg.validate();
    assert!(result.is_err());
    assert!(result.unwrap_err().to_string().contains("preset name cannot be empty"));
}

#[test]
fn test_resize_terminal_invalid_cols() {
    let msg = ClientMessage::resize_terminal(ID, 0, 24);
    let result = msg.validate();
    assert!(result.is_err());
    assert!(result.unwrap_err().to_string().contains("cols must be"));
}

#[test]
fn test_resize_terminal_invalid_rows() {
    let msg = ClientMessage::resize_terminal(ID, 80, 0);
    let result = msg.validate();
    assert!(result.is_err());
    assert!(result.unwrap_err().to_string().contains("rows must be"));
}

#[test]
fn test_resize_terminal_max_cols() {
    let msg = ClientMessage::resize_terminal(ID, MAX_TERMINAL_COLS + 1, 24);
    let result = msg.validate();
    assert!(result.is_err());
}

#[test]
fn test_kill_agent_invalid_signal() {
    let msg = ClientMessage::KillAgent { agent_id: ID, signal: Some(100) };
    let result = msg.validate();
    assert!(result.is_err());
    assert!(result.unwrap_err().to_string().contains("not a valid Unix signal"));
}

#[test]
fn test_agent_input_max_length() {
    let large_input = "x".repeat(MAX_INPUT_LENGTH + 1);
    let msg = ClientMessage::agent_input(ID, &large_input);
    let result = msg.validate();
    assert!(result.is_err());
    assert!(result.unwrap_err().to_string().contains("exceeds maximum length"));
}

#[test]
fn test_valid_messages_pass_validation() {
    assert!(ClientMessage::ping(1).validate().is_ok());
    assert!(ClientMessage::spawn_agent("/valid/path").validate().is_ok());
    assert!(ClientMessage::agent_input(ID, "hello").validate().is_ok());
    assert!(ClientMessage::kill_agent(ID).validate().is_ok());
    assert!(ClientMessage::resize_terminal(ID, 80, 24).validate().is_ok());
    assert!(ClientMessage::ListAgents.validate().is_ok());
}

#[test]
fn test_protocol_error_to_server_message() {
    let err = ProtocolError::ValidationError("test error".to_string());
    let msg: ServerMessage = err.into();

    match msg {
        ServerMessage::Error { message, code, .. } => {
            assert!(message.contains("test error"));
            assert_eq!(code, Some(ErrorCode::InvalidMessage));
        }
        _ => panic!("Expected Error message"),
    }
}

#[test]
fn test_parse_minimal_spawn_agent() {
    let json = r#"{"type": "spawn_agent", "project_path": "/test"}"#;
    let msg = ClientMessage::from_json(json).unwrap();
    match msg {
        ClientMessage::SpawnAgent { project_path, preset, cols, rows } => {
            assert_eq!(project_path, "/test");
            assert!(preset.is_none());
            assert!(cols.is_none());
            assert!(rows.is_none());
        }
        _ => panic!("Expected SpawnAgent"),
    }
}

#[test]
fn test_parse_full_spawn_agent() {
    let json = r#"{"type": "spawn_agent", "project_path": "/test", "preset": "dev", "cols": 120, "rows": 40}"#;
    let msg = ClientMessage::from_json(json).unwrap();
    match msg {
        ClientMessage::SpawnAgent { project_path, preset, cols, rows } => {
            assert_eq!(project_path, "/test");
            assert_eq!(preset, Some("dev".to_string()));
            assert_eq!(cols, Some(120));
            assert_eq!(rows, Some(40));
        }
        _ => panic!("Expected SpawnAgent"),
    }
}
