use hoc_bridge::json::{parse_object, Scalar, Value};
use hoc_bridge::protocol::{ClientEnvelope, ClientMessage, ProtocolError, ServerMessage};

#[test]
fn every_client_message_reads_back() {
    let id = 0xffff_ffff_ffff_ffff_ffff_ffff_ffff_fffeu128;
    let messages = vec![
        ClientMessage::ping(u64::MAX),
        ClientMessage::Authenticate { token: "tok\"en\\".to_string() },
        ClientMessage::SpawnAgent {
            project_path: "/p\u{e9}/\u{1}".to_string(),
            preset: Some("dev".to_string()),
            cols: Some(500),
            rows: Some(1),
        },
        ClientMessage::agent_input(id, "line\n\ttab\u{7f}"),
        ClientMessage::KillAgent { agent_id: 0, signal: Some(-7) },
        ClientMessage::resize_terminal(id, 1, 200),
        ClientMessage::ListAgents,
        ClientMessage::GetAgentStatus { agent_id: id },
    ];
    for m in messages {
        let text = m.to_json();
        assert_eq!(ClientMessage::from_json(&text).unwrap(), m, "{}", text);
    }
}

#[test]
fn escapes_are_written_and_read() {
    let m = ClientMessage::agent_input(1, "a\"b\\c\u{1}");
    let text = m.to_json();
    assert!(text.contains(r#""input":"a\"b\\c\u0001""#));
    let parsed = ClientMessage::from_json(r#"{"type":"agent_input","agent_id":"00000000-0000-0000-0000-000000000001","input":"A\/\n"}"#).unwrap();
    assert_eq!(parsed, ClientMessage::agent_input(1, "A/\n"));
}

#[test]
fn uuid_is_written_hyphenated() {
    let text = ClientMessage::kill_agent(0x67e5_5044_10b1_426f_9247_bb68_0e5f_e0c8).to_json();
    assert_eq!(text, r#"{"type":"kill_agent","agent_id":"67e55044-10b1-426f-9247-bb680e5fe0c8"}"#);
}

#[test]
fn documents_outside_the_subset_are_rejected() {
    assert!(parse_object("").is_none());
    assert!(parse_object("[]").is_none());
    assert!(parse_object("{\"a\":1} x").is_none());
    assert!(parse_object("{\"a\":01}").is_none());
    assert!(parse_object("{\"a\":1.5}").is_none());
    assert!(parse_object("{\"a\":18446744073709551616}").is_none());
    assert!(parse_object("{\"a\":\"\u{1}\"}").is_none());
    assert!(parse_object("{\"a\":1,}").is_none());
    let ms = parse_object(" { \"a\" : -5 , \"b\" : [ { \"c\" : null } ] , \"d\" : true } ").unwrap();
    assert_eq!(ms.len(), 3);
    assert_eq!(ms[0].1, Value::Scalar(Scalar::Int(-5)));
    assert_eq!(ms[2].1, Value::Scalar(Scalar::Bool(true)));
    assert_eq!(parse_object("{}").unwrap().len(), 0);
}

#[test]
fn decoding_errors_have_their_kinds() {
    assert!(matches!(ClientMessage::from_json("{"), Err(ProtocolError::SerializationError(_))));
    assert!(matches!(ClientMessage::from_json(r#"{"type":"x"}"#), Err(ProtocolError::InvalidMessage(_))));
    assert!(matches!(ClientMessage::from_json(r#"{"type":"ping"}"#), Err(ProtocolError::InvalidMessage(_))));
    assert!(matches!(
        ClientMessage::from_json(r#"{"type":"ping","seq":-1}"#),
        Err(ProtocolError::InvalidMessage(_))
    ));
    assert!(matches!(
        ClientMessage::from_json(r#"{"type":"get_agent_status","agent_id":"nope"}"#),
        Err(ProtocolError::InvalidMessage(_))
    ));
}

#[test]
fn envelope_version_decides() {
    let ok = ClientEnvelope::from_json(r#"{"version":1,"type":"list_agents"}"#).unwrap();
    assert_eq!(ok.version, 1);
    let default = ClientEnvelope::from_json(r#"{"type":"list_agents"}"#).unwrap();
    assert_eq!(default.version, 1);
    assert_eq!(
        ClientEnvelope::from_json(r#"{"version":0,"type":"list_agents"}"#),
        Err(ProtocolError::UnsupportedVersion(0))
    );
    let text = ClientEnvelope { version: 0, message: ClientMessage::ListAgents }.to_json();
    assert_eq!(ClientEnvelope::from_json(&text), Err(ProtocolError::UnsupportedVersion(0)));
    let err = ClientEnvelope::from_json(r#"{"version":0,"type":"ping","seq":1}"#).unwrap_err();
    assert_eq!(err.to_string(), "Protocol version 0 not supported (min: 1, current: 1)");
}

#[test]
fn validation_errors_name_the_bound() {
    let err = ClientMessage::KillAgent { agent_id: 1, signal: Some(0) }.validate().unwrap_err();
    assert_eq!(err.to_string(), "Validation error: signal 0 is not a valid Unix signal (1-31)");
    let err = ClientMessage::resize_terminal(1, 80, 201).validate().unwrap_err();
    assert_eq!(err.to_string(), "Validation error: rows must be between 1 and 200");
    assert!(ClientMessage::resize_terminal(1, 500, 200).validate().is_ok());
    let long = "p".repeat(4097);
    assert!(ClientMessage::spawn_agent(&long).validate().is_err());
    assert!(ClientMessage::spawn_agent(&"p".repeat(4096)).validate().is_ok());
    assert!(ClientMessage::agent_input(1, &"x".repeat(1048576)).validate().is_ok());
    assert!(ClientMessage::KillAgent { agent_id: 1, signal: Some(31) }.validate().is_ok());
}

#[test]
fn server_errors_carry_optional_fields() {
    let m = ServerMessage::agent_error(3, "Agent not found", hoc_bridge::protocol::ErrorCode::AgentNotFound);
    let text = m.to_json();
    assert_eq!(
        text,
        r#"{"type":"error","message":"Agent not found","code":"agent_not_found","agent_id":"00000000-0000-0000-0000-000000000003"}"#
    );
    assert_eq!(ServerMessage::from_json(&text).unwrap(), m);
    let plain = ServerMessage::error("x");
    assert_eq!(plain.to_json(), r#"{"type":"error","message":"x"}"#);
}

#[test]
fn unicode_escapes_are_read() {
    let id = "67e55044-10b1-426f-9247-bb680e5fe0c8";
    let text = format!(r#"{{"type":"agent_input","agent_id":"{}","input":"caf\u00e9 \ud83d\ude00 \u0041"}}"#, id);
    match ClientMessage::from_json(&text).unwrap() {
        ClientMessage::AgentInput { input, .. } => assert_eq!(input, "caf\u{e9} \u{1f600} A"),
        _ => panic!("Expected AgentInput"),
    }
    let lone = format!(r#"{{"type":"agent_input","agent_id":"{}","input":"\ud83d x"}}"#, id);
    assert!(matches!(ClientMessage::from_json(&lone), Err(ProtocolError::SerializationError(_))));
    let low = format!(r#"{{"type":"agent_input","agent_id":"{}","input":"\ude00"}}"#, id);
    assert!(matches!(ClientMessage::from_json(&low), Err(ProtocolError::SerializationError(_))));
    let upper = parse_object(r#"{"a":"\u00C9"}"#).unwrap();
    assert_eq!(upper[0].1, Value::Scalar(Scalar::Str("\u{c9}".to_string())));
}
