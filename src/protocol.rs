//! Messages exchanged between a client and the bridge, with their bounds.

use vstd::prelude::*;
use crate::text::{push_str, push_decimal, push_int, decimal, int_text};

verus! {

/// Current protocol version, echoed in every server envelope.
pub const PROTOCOL_VERSION: u32 = 1;

/// Oldest client protocol version that is still accepted.
pub const MIN_PROTOCOL_VERSION: u32 = 1;

/// Largest accepted terminal width.
pub const MAX_TERMINAL_COLS: u16 = 500;

/// Largest accepted terminal height.
pub const MAX_TERMINAL_ROWS: u16 = 200;

/// Terminal width used when a request names none.
pub const DEFAULT_TERMINAL_COLS: u16 = 80;

/// Terminal height used when a request names none.
pub const DEFAULT_TERMINAL_ROWS: u16 = 24;

/// Largest accepted input, in bytes (1 MiB).
pub const MAX_INPUT_LENGTH: usize = 1048576;

/// Largest accepted project path, in bytes.
pub const MAX_PATH_LENGTH: usize = 4096;

/// Largest accepted preset name, in bytes.
pub const MAX_PRESET_NAME_LENGTH: usize = 256;

/// Identifier of an agent session: the 128 bits of a UUID.
pub type AgentId = u128;

/// Number of bytes of the UTF-8 encoding of a text, as `str::len` gives it.
pub open spec fn byte_len(s: Seq<char>) -> nat {
    (vstd::utf8::encode_utf8(s).len() as usize) as nat
}

/// Lifecycle state of an agent session.
#[derive(Debug, Clone, Copy, PartialEq, Eq, Structural)]
pub enum AgentState {
    Starting,
    Running,
    Stopping,
    Stopped,
}

pub open spec fn state_name(s: AgentState) -> Seq<char> {
    match s {
        AgentState::Starting => "starting"@,
        AgentState::Running => "running"@,
        AgentState::Stopping => "stopping"@,
        AgentState::Stopped => "stopped"@,
    }
}

impl AgentState {
    /// Wire name of the state.
    pub fn as_str(&self) -> (r: &'static str)
        ensures
            r@ == state_name(*self),
    {
        match self {
            AgentState::Starting => "starting",
            AgentState::Running => "running",
            AgentState::Stopping => "stopping",
            AgentState::Stopped => "stopped",
        }
    }
}

/// Error codes carried by `error` messages, for programmatic handling.
#[derive(Debug, Clone, Copy, PartialEq, Eq, Structural)]
pub enum ErrorCode {
    InvalidMessage,
    AgentNotFound,
    SpawnFailed,
    AuthRequired,
    AuthFailed,
    RateLimited,
    InternalError,
    InvalidPath,
    UnsupportedVersion,
}

pub open spec fn code_name(c: ErrorCode) -> Seq<char> {
    match c {
        ErrorCode::InvalidMessage => "invalid_message"@,
        ErrorCode::AgentNotFound => "agent_not_found"@,
        ErrorCode::SpawnFailed => "spawn_failed"@,
        ErrorCode::AuthRequired => "auth_required"@,
        ErrorCode::AuthFailed => "auth_failed"@,
        ErrorCode::RateLimited => "rate_limited"@,
        ErrorCode::InternalError => "internal_error"@,
        ErrorCode::InvalidPath => "invalid_path"@,
        ErrorCode::UnsupportedVersion => "unsupported_version"@,
    }
}

impl ErrorCode {
    /// Wire name of the code.
    pub fn as_str(&self) -> (r: &'static str)
        ensures
            r@ == code_name(*self),
    {
        match self {
            ErrorCode::InvalidMessage => "invalid_message",
            ErrorCode::AgentNotFound => "agent_not_found",
            ErrorCode::SpawnFailed => "spawn_failed",
            ErrorCode::AuthRequired => "auth_required",
            ErrorCode::AuthFailed => "auth_failed",
            ErrorCode::RateLimited => "rate_limited",
            ErrorCode::InternalError => "internal_error",
            ErrorCode::InvalidPath => "invalid_path",
            ErrorCode::UnsupportedVersion => "unsupported_version",
        }
    }
}

/// Errors of decoding and validating client messages.
#[derive(Debug, Clone, PartialEq)]
pub enum ProtocolError {
    /// The text is not a JSON document of the accepted shape.
    SerializationError(String),
    /// The envelope's version is older than `MIN_PROTOCOL_VERSION`.
    UnsupportedVersion(u32),
    /// The document does not describe a known message.
    InvalidMessage(String),
    /// A field lies outside its bounds.
    ValidationError(String),
}

impl ProtocolError {
    /// Human-readable description of the error.
    pub fn to_string(&self) -> (r: String)
        ensures
            r@ == protocol_error_text(*self),
    {
        let mut out = String::new();
        match self {
            ProtocolError::SerializationError(m) => {
                push_str(&mut out, "JSON serialization error: ");
                push_str(&mut out, m.as_str());
            },
            ProtocolError::UnsupportedVersion(v) => {
                push_str(&mut out, "Protocol version ");
                push_decimal(&mut out, *v as u128);
                push_str(&mut out, " not supported (min: ");
                push_decimal(&mut out, MIN_PROTOCOL_VERSION as u128);
                push_str(&mut out, ", current: ");
                push_decimal(&mut out, PROTOCOL_VERSION as u128);
                push_str(&mut out, ")");
            },
            ProtocolError::InvalidMessage(m) => {
                push_str(&mut out, "Invalid message: ");
                push_str(&mut out, m.as_str());
            },
            ProtocolError::ValidationError(m) => {
                push_str(&mut out, "Validation error: ");
                push_str(&mut out, m.as_str());
            },
        }
        out
    }
}

pub open spec fn protocol_error_text(e: ProtocolError) -> Seq<char> {
    match e {
        ProtocolError::SerializationError(m) => "JSON serialization error: "@ + m@,
        ProtocolError::UnsupportedVersion(v) => "Protocol version "@ + decimal(v as nat)
            + " not supported (min: "@ + decimal(MIN_PROTOCOL_VERSION as nat) + ", current: "@
            + decimal(PROTOCOL_VERSION as nat) + ")"@,
        ProtocolError::InvalidMessage(m) => "Invalid message: "@ + m@,
        ProtocolError::ValidationError(m) => "Validation error: "@ + m@,
    }
}


/// Messages sent by a client.
#[derive(Debug, Clone, PartialEq)]
pub enum ClientMessage {
    /// Keepalive; answered by `pong` with the same sequence number.
    Ping { seq: u64 },
    /// Presents the shared token; only meaningful during the handshake.
    Authenticate { token: String },
    /// Starts an agent in a project directory.
    SpawnAgent {
        project_path: String,
        preset: Option<String>,
        cols: Option<u16>,
        rows: Option<u16>,
    },
    /// Keystrokes for an agent.
    AgentInput { agent_id: AgentId, input: String },
    /// Terminates an agent; the signal is accepted and not delivered.
    KillAgent { agent_id: AgentId, signal: Option<i32> },
    /// Resizes an agent's terminal.
    ResizeTerminal { agent_id: AgentId, cols: u16, rows: u16 },
    /// Asks for every live agent.
    ListAgents,
    /// Asks for one agent.
    GetAgentStatus { agent_id: AgentId },
}

/// A width accepted in a request.
pub open spec fn valid_cols(c: u16) -> bool {
    1 <= c <= MAX_TERMINAL_COLS
}

/// A height accepted in a request.
pub open spec fn valid_rows(r: u16) -> bool {
    1 <= r <= MAX_TERMINAL_ROWS
}

pub open spec fn path_empty_text() -> Seq<char> {
    "project_path cannot be empty"@
}

pub open spec fn path_long_text() -> Seq<char> {
    "project_path exceeds maximum length of "@ + decimal(MAX_PATH_LENGTH as nat)
        + " characters"@
}

pub open spec fn preset_empty_text() -> Seq<char> {
    "preset name cannot be empty when specified"@
}

pub open spec fn preset_long_text() -> Seq<char> {
    "preset name exceeds maximum length of "@ + decimal(MAX_PRESET_NAME_LENGTH as nat)
        + " characters"@
}

pub open spec fn cols_text() -> Seq<char> {
    "cols must be between 1 and "@ + decimal(MAX_TERMINAL_COLS as nat)
}

pub open spec fn rows_text() -> Seq<char> {
    "rows must be between 1 and "@ + decimal(MAX_TERMINAL_ROWS as nat)
}

pub open spec fn input_long_text() -> Seq<char> {
    "input exceeds maximum length of "@ + decimal(MAX_INPUT_LENGTH as nat) + " bytes"@
}

pub open spec fn signal_text(sig: i32) -> Seq<char> {
    "signal "@ + int_text(sig as int) + " is not a valid Unix signal (1-31)"@
}

/// The first bound that a message breaks, as the text of its error, or
/// `None` when the message is within all bounds.
pub open spec fn validation_failure(m: ClientModel) -> Option<Seq<char>> {
    match m {
        ClientModel::SpawnAgent { project_path, preset, cols, rows } => {
            if project_path.len() == 0 {
                Some(path_empty_text())
            } else if byte_len(project_path) > MAX_PATH_LENGTH {
                Some(path_long_text())
            } else if preset is Some && preset.unwrap().len() == 0 {
                Some(preset_empty_text())
            } else if preset is Some && byte_len(preset.unwrap()) > MAX_PRESET_NAME_LENGTH {
                Some(preset_long_text())
            } else if cols is Some && !valid_cols(cols.unwrap()) {
                Some(cols_text())
            } else if rows is Some && !valid_rows(rows.unwrap()) {
                Some(rows_text())
            } else {
                None
            }
        },
        ClientModel::AgentInput { input, .. } => {
            if byte_len(input) > MAX_INPUT_LENGTH {
                Some(input_long_text())
            } else {
                None
            }
        },
        ClientModel::KillAgent { signal, .. } => {
            if signal is Some && (signal.unwrap() < 1 || signal.unwrap() > 31) {
                Some(signal_text(signal.unwrap()))
            } else {
                None
            }
        },
        ClientModel::ResizeTerminal { cols, rows, .. } => {
            if !valid_cols(cols) {
                Some(cols_text())
            } else if !valid_rows(rows) {
                Some(rows_text())
            } else {
                None
            }
        },
        _ => None,
    }
}

/// `r` is a validation error whose text is `text`.
pub open spec fn is_validation_error(r: Result<(), ProtocolError>, text: Seq<char>) -> bool {
    match r {
        Err(ProtocolError::ValidationError(t)) => t@ == text,
        _ => false,
    }
}

fn validation_error(text: String) -> (r: Result<(), ProtocolError>)
    ensures
        is_validation_error(r, text@),
{
    Err(ProtocolError::ValidationError(text))
}

fn text_with_number(head: &str, n: u128, tail: &str) -> (r: String)
    ensures
        r@ == head@ + decimal(n as nat) + tail@,
{
    let mut out = String::new();
    push_str(&mut out, head);
    push_decimal(&mut out, n);
    push_str(&mut out, tail);
    out
}

impl ClientMessage {
    /// Checks the message's fields against the protocol's bounds; the error
    /// names the first bound broken.
    pub fn validate(&self) -> (r: Result<(), ProtocolError>)
        ensures
            match validation_failure(self@) {
                None => r is Ok,
                Some(text) => is_validation_error(r, text),
            },
    {
        proof {
            reveal_strlit("");
        }
        match self {
            ClientMessage::SpawnAgent { project_path, preset, cols, rows } => {
                if project_path.as_str().is_empty() {
                    return validation_error("project_path cannot be empty".to_owned());
                }
                if project_path.as_str().len() > MAX_PATH_LENGTH {
                    return validation_error(
                        text_with_number(
                            "project_path exceeds maximum length of ",
                            MAX_PATH_LENGTH as u128,
                            " characters",
                        ),
                    );
                }
                if let Some(p) = preset {
                    if p.as_str().is_empty() {
                        return validation_error(
                            "preset name cannot be empty when specified".to_owned(),
                        );
                    }
                    if p.as_str().len() > MAX_PRESET_NAME_LENGTH {
                        return validation_error(
                            text_with_number(
                                "preset name exceeds maximum length of ",
                                MAX_PRESET_NAME_LENGTH as u128,
                                " characters",
                            ),
                        );
                    }
                }
                if let Some(c) = cols {
                    if *c == 0 || *c > MAX_TERMINAL_COLS {
                        return validation_error(
                            text_with_number("cols must be between 1 and ", MAX_TERMINAL_COLS as u128, ""),
                        );
                    }
                }
                if let Some(rw) = rows {
                    if *rw == 0 || *rw > MAX_TERMINAL_ROWS {
                        return validation_error(
                            text_with_number("rows must be between 1 and ", MAX_TERMINAL_ROWS as u128, ""),
                        );
                    }
                }
                Ok(())
            },
            ClientMessage::AgentInput { input, .. } => {
                if input.as_str().len() > MAX_INPUT_LENGTH {
                    return validation_error(
                        text_with_number(
                            "input exceeds maximum length of ",
                            MAX_INPUT_LENGTH as u128,
                            " bytes",
                        ),
                    );
                }
                Ok(())
            },
            ClientMessage::KillAgent { signal, .. } => {
                if let Some(sig) = signal {
                    if *sig < 1 || *sig > 31 {
                        let mut out = String::new();
                        push_str(&mut out, "signal ");
                        push_int(&mut out, *sig as i64);
                        push_str(&mut out, " is not a valid Unix signal (1-31)");
                        return validation_error(out);
                    }
                }
                Ok(())
            },
            ClientMessage::ResizeTerminal { cols, rows, .. } => {
                if *cols == 0 || *cols > MAX_TERMINAL_COLS {
                    return validation_error(
                        text_with_number("cols must be between 1 and ", MAX_TERMINAL_COLS as u128, ""),
                    );
                }
                if *rows == 0 || *rows > MAX_TERMINAL_ROWS {
                    return validation_error(
                        text_with_number("rows must be between 1 and ", MAX_TERMINAL_ROWS as u128, ""),
                    );
                }
                Ok(())
            },
            _ => Ok(()),
        }
    }
}


pub open spec fn opt_view(o: Option<String>) -> Option<Seq<char>> {
    match o {
        Some(t) => Some(t@),
        None => None,
    }
}

/// A client message as a mathematical value.
pub enum ClientModel {
    Ping { seq: u64 },
    Authenticate { token: Seq<char> },
    SpawnAgent {
        project_path: Seq<char>,
        preset: Option<Seq<char>>,
        cols: Option<u16>,
        rows: Option<u16>,
    },
    AgentInput { agent_id: AgentId, input: Seq<char> },
    KillAgent { agent_id: AgentId, signal: Option<i32> },
    ResizeTerminal { agent_id: AgentId, cols: u16, rows: u16 },
    ListAgents,
    GetAgentStatus { agent_id: AgentId },
}

impl View for ClientMessage {
    type V = ClientModel;

    open spec fn view(&self) -> ClientModel {
        match self {
            ClientMessage::Ping { seq } => ClientModel::Ping { seq: *seq },
            ClientMessage::Authenticate { token } => ClientModel::Authenticate { token: token@ },
            ClientMessage::SpawnAgent { project_path, preset, cols, rows } => ClientModel::SpawnAgent {
                project_path: project_path@,
                preset: opt_view(*preset),
                cols: *cols,
                rows: *rows,
            },
            ClientMessage::AgentInput { agent_id, input } => ClientModel::AgentInput {
                agent_id: *agent_id,
                input: input@,
            },
            ClientMessage::KillAgent { agent_id, signal } => ClientModel::KillAgent {
                agent_id: *agent_id,
                signal: *signal,
            },
            ClientMessage::ResizeTerminal { agent_id, cols, rows } => ClientModel::ResizeTerminal {
                agent_id: *agent_id,
                cols: *cols,
                rows: *rows,
            },
            ClientMessage::ListAgents => ClientModel::ListAgents,
            ClientMessage::GetAgentStatus { agent_id } => ClientModel::GetAgentStatus {
                agent_id: *agent_id,
            },
        }
    }
}

impl ClientMessage {
    /// A keepalive with sequence number `seq`.
    pub fn ping(seq: u64) -> (r: ClientMessage)
        ensures
            r@ == (ClientModel::Ping { seq }),
    {
        ClientMessage::Ping { seq }
    }

    /// A spawn request with default size and no preset.
    pub fn spawn_agent(project_path: &str) -> (r: ClientMessage)
        ensures
            r@ == (ClientModel::SpawnAgent {
                project_path: project_path@,
                preset: None,
                cols: None,
                rows: None,
            }),
    {
        ClientMessage::SpawnAgent {
            project_path: project_path.to_owned(),
            preset: None,
            cols: None,
            rows: None,
        }
    }

    /// A spawn request naming a preset.
    pub fn spawn_agent_with_preset(project_path: &str, preset: &str) -> (r: ClientMessage)
        ensures
            r@ == (ClientModel::SpawnAgent {
                project_path: project_path@,
                preset: Some(preset@),
                cols: None,
                rows: None,
            }),
    {
        ClientMessage::SpawnAgent {
            project_path: project_path.to_owned(),
            preset: Some(preset.to_owned()),
            cols: None,
            rows: None,
        }
    }

    /// Input for an agent.
    pub fn agent_input(agent_id: AgentId, input: &str) -> (r: ClientMessage)
        ensures
            r@ == (ClientModel::AgentInput { agent_id, input: input@ }),
    {
        ClientMessage::AgentInput { agent_id, input: input.to_owned() }
    }

    /// A kill request without a signal.
    pub fn kill_agent(agent_id: AgentId) -> (r: ClientMessage)
        ensures
            r@ == (ClientModel::KillAgent { agent_id, signal: None }),
    {
        ClientMessage::KillAgent { agent_id, signal: None }
    }

    /// A resize request.
    pub fn resize_terminal(agent_id: AgentId, cols: u16, rows: u16) -> (r: ClientMessage)
        ensures
            r@ == (ClientModel::ResizeTerminal { agent_id, cols, rows }),
    {
        ClientMessage::ResizeTerminal { agent_id, cols, rows }
    }
}

/// A client message with the protocol version the client speaks.
#[derive(Debug, Clone, PartialEq)]
pub struct ClientEnvelope {
    pub version: u32,
    pub message: ClientMessage,
}

/// A server message with the protocol version the server speaks.
#[derive(Debug, Clone, PartialEq)]
pub struct ServerEnvelope {
    pub version: u32,
    pub message: ServerMessage,
}

impl ClientEnvelope {
    /// Wraps a message with the current protocol version.
    pub fn new(message: ClientMessage) -> (r: ClientEnvelope)
        ensures
            r.version == PROTOCOL_VERSION,
            r.message == message,
    {
        ClientEnvelope { version: PROTOCOL_VERSION, message }
    }

    /// Checks the version, then the message's bounds.
    pub fn validate(&self) -> (r: Result<(), ProtocolError>)
        ensures
            self.version < MIN_PROTOCOL_VERSION ==> r == Err::<(), ProtocolError>(
                ProtocolError::UnsupportedVersion(self.version),
            ),
            self.version >= MIN_PROTOCOL_VERSION ==> match validation_failure(self.message@) {
                None => r is Ok,
                Some(text) => is_validation_error(r, text),
            },
    {
        if self.version < MIN_PROTOCOL_VERSION {
            return Err(ProtocolError::UnsupportedVersion(self.version));
        }
        self.message.validate()
    }
}

impl ServerEnvelope {
    /// Wraps a message with the current protocol version.
    pub fn new(message: ServerMessage) -> (r: ServerEnvelope)
        ensures
            r.version == PROTOCOL_VERSION,
            r.message == message,
    {
        ServerEnvelope { version: PROTOCOL_VERSION, message }
    }
}

/// One live agent, as listed to clients.
#[derive(Debug, Clone, PartialEq)]
pub struct AgentInfo {
    pub agent_id: AgentId,
    pub project_path: String,
    pub status: AgentState,
    pub cols: u16,
    pub rows: u16,
}

pub struct InfoModel {
    pub agent_id: AgentId,
    pub project_path: Seq<char>,
    pub status: AgentState,
    pub cols: u16,
    pub rows: u16,
}

impl View for AgentInfo {
    type V = InfoModel;

    open spec fn view(&self) -> InfoModel {
        InfoModel {
            agent_id: self.agent_id,
            project_path: self.project_path@,
            status: self.status,
            cols: self.cols,
            rows: self.rows,
        }
    }
}

pub open spec fn infos_view(v: Seq<AgentInfo>) -> Seq<InfoModel> {
    v.map_values(|a: AgentInfo| a@)
}

/// Messages sent by the server.
#[derive(Debug, Clone, PartialEq)]
pub enum ServerMessage {
    /// First message of every connection.
    Welcome { version: u32, server_id: Option<String> },
    /// The handshake's token was accepted.
    AuthSuccess,
    /// Answer to `ping`.
    Pong { seq: u64 },
    /// An agent was started.
    AgentSpawned { agent_id: AgentId, project_path: String, cols: u16, rows: u16 },
    /// Terminal output of an agent.
    AgentOutput { agent_id: AgentId, data: String },
    /// An agent exited, or was asked to.
    AgentExited { agent_id: AgentId, exit_code: Option<i32>, reason: Option<String> },
    /// An agent's terminal was resized.
    AgentResized { agent_id: AgentId, cols: u16, rows: u16 },
    /// Every live agent.
    AgentList { agents: Vec<AgentInfo> },
    /// One agent.
    AgentStatus {
        agent_id: AgentId,
        status: AgentState,
        project_path: String,
        cols: u16,
        rows: u16,
    },
    /// A request failed.
    Error { message: String, code: Option<ErrorCode>, agent_id: Option<AgentId> },
}

/// A server message as a mathematical value.
pub enum ServerModel {
    Welcome { version: u32, server_id: Option<Seq<char>> },
    AuthSuccess,
    Pong { seq: u64 },
    AgentSpawned { agent_id: AgentId, project_path: Seq<char>, cols: u16, rows: u16 },
    AgentOutput { agent_id: AgentId, data: Seq<char> },
    AgentExited { agent_id: AgentId, exit_code: Option<i32>, reason: Option<Seq<char>> },
    AgentResized { agent_id: AgentId, cols: u16, rows: u16 },
    AgentList { agents: Seq<InfoModel> },
    AgentStatus {
        agent_id: AgentId,
        status: AgentState,
        project_path: Seq<char>,
        cols: u16,
        rows: u16,
    },
    Error { message: Seq<char>, code: Option<ErrorCode>, agent_id: Option<AgentId> },
}

impl View for ServerMessage {
    type V = ServerModel;

    open spec fn view(&self) -> ServerModel {
        match self {
            ServerMessage::Welcome { version, server_id } => ServerModel::Welcome {
                version: *version,
                server_id: opt_view(*server_id),
            },
            ServerMessage::AuthSuccess => ServerModel::AuthSuccess,
            ServerMessage::Pong { seq } => ServerModel::Pong { seq: *seq },
            ServerMessage::AgentSpawned { agent_id, project_path, cols, rows } => ServerModel::AgentSpawned {
                agent_id: *agent_id,
                project_path: project_path@,
                cols: *cols,
                rows: *rows,
            },
            ServerMessage::AgentOutput { agent_id, data } => ServerModel::AgentOutput {
                agent_id: *agent_id,
                data: data@,
            },
            ServerMessage::AgentExited { agent_id, exit_code, reason } => ServerModel::AgentExited {
                agent_id: *agent_id,
                exit_code: *exit_code,
                reason: opt_view(*reason),
            },
            ServerMessage::AgentResized { agent_id, cols, rows } => ServerModel::AgentResized {
                agent_id: *agent_id,
                cols: *cols,
                rows: *rows,
            },
            ServerMessage::AgentList { agents } => ServerModel::AgentList {
                agents: infos_view(agents@),
            },
            ServerMessage::AgentStatus { agent_id, status, project_path, cols, rows } => ServerModel::AgentStatus {
                agent_id: *agent_id,
                status: *status,
                project_path: project_path@,
                cols: *cols,
                rows: *rows,
            },
            ServerMessage::Error { message, code, agent_id } => ServerModel::Error {
                message: message@,
                code: *code,
                agent_id: *agent_id,
            },
        }
    }
}

impl ServerMessage {
    /// The welcome, with the current protocol version.
    pub fn welcome() -> (r: ServerMessage)
        ensures
            r@ == (ServerModel::Welcome { version: PROTOCOL_VERSION, server_id: None }),
    {
        ServerMessage::Welcome { version: PROTOCOL_VERSION, server_id: None }
    }

    /// The welcome, naming the server.
    pub fn welcome_with_id(server_id: &str) -> (r: ServerMessage)
        ensures
            r@ == (ServerModel::Welcome { version: PROTOCOL_VERSION, server_id: Some(server_id@) }),
    {
        ServerMessage::Welcome { version: PROTOCOL_VERSION, server_id: Some(server_id.to_owned()) }
    }

    /// The handshake's affirmative answer.
    pub fn auth_success() -> (r: ServerMessage)
        ensures
            r@ == ServerModel::AuthSuccess,
    {
        ServerMessage::AuthSuccess
    }

    /// The answer to `ping`.
    pub fn pong(seq: u64) -> (r: ServerMessage)
        ensures
            r@ == (ServerModel::Pong { seq }),
    {
        ServerMessage::Pong { seq }
    }

    pub fn agent_spawned(agent_id: AgentId, project_path: &str, cols: u16, rows: u16) -> (r: ServerMessage)
        ensures
            r@ == (ServerModel::AgentSpawned { agent_id, project_path: project_path@, cols, rows }),
    {
        ServerMessage::AgentSpawned { agent_id, project_path: project_path.to_owned(), cols, rows }
    }

    pub fn agent_output(agent_id: AgentId, data: &str) -> (r: ServerMessage)
        ensures
            r@ == (ServerModel::AgentOutput { agent_id, data: data@ }),
    {
        ServerMessage::AgentOutput { agent_id, data: data.to_owned() }
    }

    pub fn agent_exited(agent_id: AgentId, exit_code: Option<i32>) -> (r: ServerMessage)
        ensures
            r@ == (ServerModel::AgentExited { agent_id, exit_code, reason: None }),
    {
        ServerMessage::AgentExited { agent_id, exit_code, reason: None }
    }

    pub fn agent_exited_with_reason(agent_id: AgentId, exit_code: Option<i32>, reason: &str) -> (r: ServerMessage)
        ensures
            r@ == (ServerModel::AgentExited { agent_id, exit_code, reason: Some(reason@) }),
    {
        ServerMessage::AgentExited { agent_id, exit_code, reason: Some(reason.to_owned()) }
    }

    pub fn error(message: &str) -> (r: ServerMessage)
        ensures
            r@ == (ServerModel::Error { message: message@, code: None, agent_id: None }),
    {
        ServerMessage::Error { message: message.to_owned(), code: None, agent_id: None }
    }

    pub fn error_with_code(message: &str, code: ErrorCode) -> (r: ServerMessage)
        ensures
            r@ == (ServerModel::Error { message: message@, code: Some(code), agent_id: None }),
    {
        ServerMessage::Error { message: message.to_owned(), code: Some(code), agent_id: None }
    }

    pub fn agent_error(agent_id: AgentId, message: &str, code: ErrorCode) -> (r: ServerMessage)
        ensures
            r@ == (ServerModel::Error { message: message@, code: Some(code), agent_id: Some(agent_id) }),
    {
        ServerMessage::Error { message: message.to_owned(), code: Some(code), agent_id: Some(agent_id) }
    }

    /// The `error` message that reports a decoding or validation failure.
    pub fn from_protocol_error(err: &ProtocolError) -> (r: ServerMessage)
        ensures
            r@ == (ServerModel::Error {
                message: protocol_error_text(*err),
                code: Some(protocol_error_code(*err)),
                agent_id: None,
            }),
    {
        let code = match err {
            ProtocolError::UnsupportedVersion(_) => ErrorCode::UnsupportedVersion,
            _ => ErrorCode::InvalidMessage,
        };
        ServerMessage::Error { message: err.to_string(), code: Some(code), agent_id: None }
    }
}

impl From<ProtocolError> for ServerMessage {
    /// The same as `ServerMessage::from_protocol_error`.
    fn from(err: ProtocolError) -> (r: ServerMessage)
        ensures
            r@ == (ServerModel::Error {
                message: protocol_error_text(err),
                code: Some(protocol_error_code(err)),
                agent_id: None,
            }),
    {
        ServerMessage::from_protocol_error(&err)
    }
}

impl vstd::std_specs::convert::FromSpecImpl<ProtocolError> for ServerMessage {
    /// What `from` returns is stated on `from` itself, over the message's
    /// view.
    open spec fn obeys_from_spec() -> bool {
        false
    }

    open spec fn from_spec(v: ProtocolError) -> ServerMessage {
        arbitrary()
    }
}

/// The code that reports a protocol error to the client.
pub open spec fn protocol_error_code(e: ProtocolError) -> ErrorCode {
    match e {
        ProtocolError::UnsupportedVersion(_) => ErrorCode::UnsupportedVersion,
        _ => ErrorCode::InvalidMessage,
    }
}


/// Sizes outside [1, 500] × [1, 200] are rejected in resize and spawn
/// requests, input over 1 MiB is rejected, and kill signals outside
/// [1, 31] are rejected.
pub proof fn law_validation_bounds(m: ClientModel)
    ensures
        m matches ClientModel::ResizeTerminal { cols, rows, .. } ==> (!valid_cols(cols) || !valid_rows(rows)
            ==> validation_failure(m) is Some),
        m matches ClientModel::SpawnAgent { cols, rows, .. } ==> ((cols is Some && !valid_cols(cols.unwrap()))
            || (rows is Some && !valid_rows(rows.unwrap())) ==> validation_failure(m) is Some),
        m matches ClientModel::AgentInput { input, .. } ==> (byte_len(input) > MAX_INPUT_LENGTH
            ==> validation_failure(m) is Some),
        m matches ClientModel::KillAgent { signal, .. } ==> (signal is Some && (signal.unwrap() < 1
            || signal.unwrap() > 31) ==> validation_failure(m) is Some),
        m matches ClientModel::ResizeTerminal { cols, rows, .. } ==> (valid_cols(cols) && valid_rows(rows)
            ==> validation_failure(m) is None),
{
}

} // verus!
