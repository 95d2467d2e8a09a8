//! The decisions of one client connection: the token handshake, what to
//! do with each frame and request, the replies, and which published events
//! reach the client. The socket and the agents are driven by the caller.

use vstd::prelude::*;
use crate::codec::{EnvelopeVerdict, client_of_text, envelope_verdict};
use crate::config::{ProjectConfig, opt_str_view, plans, size_or, spawn_config_for};
use crate::manager::{
    AgentEvent, AgentManager, EventKind, ManagerError, entry_of, info_matches, manager_error_text, registered_from,
    same_sizes, spawned_event,
};
use crate::pty::PtyError;
use crate::session::SessionError;
use crate::protocol::{
    AgentId, AgentInfo, ClientEnvelope, ClientMessage, ClientModel, ErrorCode, ProtocolError, ServerMessage,
    ServerModel, MIN_PROTOCOL_VERSION, infos_view, protocol_error_text, validation_failure,
};
use crate::session::{SpawnConfig, missing_path_text, not_dir_text};
use crate::text::{lossy_text, push_str, utf8_lossy};

verus! {

/// A frame received while the handshake is pending.
#[derive(Debug, Clone, PartialEq)]
pub enum AuthFrame {
    Text(String),
    Ping,
    Close,
    Error(String),
    /// Binary, pong and raw frames.
    Other,
    /// The stream ended.
    Ended,
    /// No token came in time.
    TimedOut,
}

/// The handshake's next step.
#[derive(Debug, Clone, PartialEq)]
pub enum AuthStep {
    /// Keep waiting for the token.
    Wait,
    /// Send this message; the client is authenticated.
    Accepted(ServerMessage),
    /// Send this message and close.
    Rejected(ServerMessage),
}

/// A frame received once the connection is open.
#[derive(Debug, Clone, PartialEq)]
pub enum Frame {
    Text(String),
    Binary(usize),
    Ping(Vec<u8>),
    Pong,
    Close,
    Error(String),
    Ended,
}

/// What to do with a frame.
#[derive(Debug, Clone, PartialEq)]
pub enum FrameAction {
    /// Decode and dispatch the text.
    Dispatch(String),
    /// Answer a transport ping with a pong carrying the same bytes.
    Pong(Vec<u8>),
    /// Nothing.
    Ignore,
    /// Leave the loop.
    Stop,
}

/// What a request asks of the caller.
#[derive(Debug, Clone, PartialEq)]
pub enum Request {
    /// Send this reply; nothing else to do.
    Reply(ServerMessage),
    Spawn { project_path: String, preset: Option<String>, cols: Option<u16>, rows: Option<u16> },
    Input { agent_id: AgentId, input: String },
    Kill { agent_id: AgentId },
    Resize { agent_id: AgentId, cols: u16, rows: u16 },
    List,
    Status { agent_id: AgentId },
}

/// `m` is an `error` with this code and no agent.
pub open spec fn is_error_with(m: ServerModel, code: ErrorCode) -> bool {
    m matches ServerModel::Error { code: c, agent_id: None, .. } && c == Some(code)
}

/// `r` replies with an `error` with this code and text.
pub open spec fn replies_error(r: Request, code: ErrorCode, text: Seq<char>) -> bool {
    r matches Request::Reply(m) && m@ == (ServerModel::Error { message: text, code: Some(code), agent_id: None })
}

/// `r` replies with an `error` with this code.
pub open spec fn replies_code(r: Request, code: ErrorCode) -> bool {
    r matches Request::Reply(m) && is_error_with(m@, code)
}

/// What a valid request asks for.
pub open spec fn request_matches(r: Request, m: ClientModel) -> bool {
    match m {
        ClientModel::Ping { seq } => r matches Request::Reply(x) && x@ == (ServerModel::Pong { seq }),
        ClientModel::Authenticate { .. } => replies_error(r, ErrorCode::InvalidMessage, "Already authenticated"@),
        ClientModel::SpawnAgent { project_path, preset, cols, rows } => r matches Request::Spawn {
            project_path: p,
            preset: q,
            cols: c,
            rows: w,
        } && p@ == project_path && crate::protocol::opt_view(q) == preset && c == cols && w == rows,
        ClientModel::AgentInput { agent_id, input } => r matches Request::Input { agent_id: a, input: t }
            && a == agent_id && t@ == input,
        ClientModel::KillAgent { agent_id, .. } => r == Request::Kill { agent_id },
        ClientModel::ResizeTerminal { agent_id, cols, rows } => r == Request::Resize { agent_id, cols, rows },
        ClientModel::ListAgents => r == Request::List,
        ClientModel::GetAgentStatus { agent_id } => r == Request::Status { agent_id },
    }
}

fn request_of(m: ClientMessage) -> (r: Request)
    ensures
        request_matches(r, m@),
{
    match m {
        ClientMessage::Ping { seq } => Request::Reply(ServerMessage::pong(seq)),
        ClientMessage::Authenticate { .. } => Request::Reply(
            ServerMessage::error_with_code("Already authenticated", ErrorCode::InvalidMessage),
        ),
        ClientMessage::SpawnAgent { project_path, preset, cols, rows } => Request::Spawn {
            project_path,
            preset,
            cols,
            rows,
        },
        ClientMessage::AgentInput { agent_id, input } => Request::Input { agent_id, input },
        ClientMessage::KillAgent { agent_id, .. } => Request::Kill { agent_id },
        ClientMessage::ResizeTerminal { agent_id, cols, rows } => Request::Resize { agent_id, cols, rows },
        ClientMessage::ListAgents => Request::List,
        ClientMessage::GetAgentStatus { agent_id } => Request::Status { agent_id },
    }
}

/// Decodes a text frame and decides what it asks for. Malformed and
/// unknown messages and broken bounds are answered with `invalid_message`,
/// old versions with `unsupported_version`; the connection stays open.
pub fn decode_request(text: &str) -> (r: Request)
    ensures
        match envelope_verdict(text@) {
            EnvelopeVerdict::Accepted(_, m) => request_matches(r, m),
            EnvelopeVerdict::Unsupported(v) => replies_error(
                r,
                ErrorCode::UnsupportedVersion,
                protocol_error_text(ProtocolError::UnsupportedVersion(v)),
            ),
            EnvelopeVerdict::OutOfBounds(t) => replies_error(r, ErrorCode::InvalidMessage, "Validation error: "@ + t),
            _ => replies_code(r, ErrorCode::InvalidMessage),
        },
{
    match ClientEnvelope::from_json(text) {
        Ok(envelope) => request_of(envelope.message),
        Err(e) => Request::Reply(ServerMessage::from_protocol_error(&e)),
    }
}

/// What to do with a frame of the open connection: text is dispatched,
/// transport pings answered, close, errors and the end of the stream end
/// the loop, the rest is ignored.
pub fn frame_action(f: Frame) -> (r: FrameAction)
    ensures
        match f {
            Frame::Text(t) => r matches FrameAction::Dispatch(u) && u == t,
            Frame::Ping(d) => r matches FrameAction::Pong(e) && e == d,
            Frame::Close | Frame::Error(_) | Frame::Ended => r == FrameAction::Stop,
            _ => r == FrameAction::Ignore,
        },
{
    match f {
        Frame::Text(t) => FrameAction::Dispatch(t),
        Frame::Ping(d) => FrameAction::Pong(d),
        Frame::Close | Frame::Error(_) | Frame::Ended => FrameAction::Stop,
        _ => FrameAction::Ignore,
    }
}

/// The message that forwards a published event to the client; `Spawned`
/// is not forwarded, since the spawning client was answered directly.
pub fn event_message(e: &AgentEvent) -> (r: Option<ServerMessage>)
    ensures
        match e {
            AgentEvent::Spawned { .. } => r is None,
            AgentEvent::Output { agent_id, data } => r is Some && r.unwrap()@ == (ServerModel::AgentOutput {
                agent_id: *agent_id,
                data: utf8_lossy(data@),
            }),
            AgentEvent::Exited { agent_id, exit_code, reason } => r is Some && r.unwrap()@ == (
            ServerModel::AgentExited { agent_id: *agent_id, exit_code: *exit_code, reason: Some(reason@) }),
            AgentEvent::Resized { agent_id, cols, rows } => r is Some && r.unwrap()@ == (
            ServerModel::AgentResized { agent_id: *agent_id, cols: *cols, rows: *rows }),
        },
{
    match e {
        AgentEvent::Spawned { .. } => None,
        AgentEvent::Output { agent_id, data } => Some(
            ServerMessage::AgentOutput { agent_id: *agent_id, data: lossy_text(data) },
        ),
        AgentEvent::Exited { agent_id, exit_code, reason } => Some(
            ServerMessage::agent_exited_with_reason(*agent_id, *exit_code, reason.as_str()),
        ),
        AgentEvent::Resized { agent_id, cols, rows } => Some(
            ServerMessage::AgentResized { agent_id: *agent_id, cols: *cols, rows: *rows },
        ),
    }
}

/// The code that reports a failed kill or resize: `agent_not_found` for an
/// unknown agent, `internal_error` otherwise.
pub open spec fn code_for(e: ManagerError) -> ErrorCode {
    match e {
        ManagerError::AgentNotFound(_) => ErrorCode::AgentNotFound,
        _ => ErrorCode::InternalError,
    }
}

fn error_code(e: &ManagerError) -> (r: ErrorCode)
    ensures
        r == code_for(*e),
{
    match e {
        ManagerError::AgentNotFound(_) => ErrorCode::AgentNotFound,
        _ => ErrorCode::InternalError,
    }
}

/// `message` followed by the text of `e`.
fn with_error(message: &str, e: &ManagerError) -> (r: String)
    ensures
        r@ == message@ + manager_error_text(*e),
{
    let mut out = String::new();
    push_str(&mut out, message);
    push_str(&mut out, e.to_string().as_str());
    out
}

/// `r` is the `invalid_path` error with this text.
pub open spec fn rejects_path(r: Result<SpawnConfig, ServerMessage>, text: Seq<char>) -> bool {
    match r {
        Err(m) => m@ == (ServerModel::Error { message: text, code: Some(ErrorCode::InvalidPath), agent_id: None }),
        Ok(_) => false,
    }
}

/// The spawn configuration for a request, or the `invalid_path` error when
/// the project path is missing or not a directory.
pub fn spawn_plan(
    command: &str,
    project_path: &str,
    preset: Option<&str>,
    cols: Option<u16>,
    rows: Option<u16>,
    path_exists: bool,
    path_is_dir: bool,
    project: &ProjectConfig,
) -> (r: Result<SpawnConfig, ServerMessage>)
    ensures
        !path_exists ==> rejects_path(r, missing_path_text(project_path@)),
        path_exists && !path_is_dir ==> rejects_path(r, not_dir_text(project_path@)),
        path_exists && path_is_dir ==> r is Ok && plans(
            r.unwrap(),
            command@,
            project_path@,
            opt_str_view(preset),
            cols,
            rows,
            *project,
        ),
{
    if !path_exists {
        let mut m = String::new();
        push_str(&mut m, "Project path does not exist: ");
        push_str(&mut m, project_path);
        return Err(ServerMessage::error_with_code(m.as_str(), ErrorCode::InvalidPath));
    }
    if !path_is_dir {
        let mut m = String::new();
        push_str(&mut m, "Project path is not a directory: ");
        push_str(&mut m, project_path);
        return Err(ServerMessage::error_with_code(m.as_str(), ErrorCode::InvalidPath));
    }
    Ok(spawn_config_for(command, project_path, preset, cols, rows, project))
}

/// The reply to a spawn: `agent_spawned` with the requested or default
/// size, or `spawn_failed`.
pub fn spawn_reply(project_path: &str, cols: Option<u16>, rows: Option<u16>, result: &Result<AgentId, ManagerError>) -> (r:
    ServerMessage)
    ensures
        match result {
            Ok(id) => r@ == (ServerModel::AgentSpawned {
                agent_id: *id,
                project_path: project_path@,
                cols: match cols {
                    Some(c) => c,
                    None => crate::protocol::DEFAULT_TERMINAL_COLS,
                },
                rows: match rows {
                    Some(c) => c,
                    None => crate::protocol::DEFAULT_TERMINAL_ROWS,
                },
            }),
            Err(e) => r@ == (ServerModel::Error {
                message: "Failed to spawn agent: "@ + manager_error_text(*e),
                code: Some(ErrorCode::SpawnFailed),
                agent_id: None,
            }),
        },
{
    match result {
        Ok(id) => {
            let c = match cols {
                Some(c) => c,
                None => crate::protocol::DEFAULT_TERMINAL_COLS,
            };
            let w = match rows {
                Some(x) => x,
                None => crate::protocol::DEFAULT_TERMINAL_ROWS,
            };
            ServerMessage::agent_spawned(*id, project_path, c, w)
        },
        Err(e) => ServerMessage::error_with_code(
            with_error("Failed to spawn agent: ", e).as_str(),
            ErrorCode::SpawnFailed,
        ),
    }
}

/// The reply to input: none on success, else `internal_error` naming the
/// agent.
pub fn input_reply(agent_id: AgentId, result: &Result<(), ManagerError>) -> (r: Option<ServerMessage>)
    ensures
        match result {
            Ok(()) => r is None,
            Err(e) => r is Some && r.unwrap()@ == (ServerModel::Error {
                message: "Failed to send input: "@ + manager_error_text(*e),
                code: Some(ErrorCode::InternalError),
                agent_id: Some(agent_id),
            }),
        },
{
    match result {
        Ok(()) => None,
        Err(e) => Some(
            ServerMessage::agent_error(agent_id, with_error("Failed to send input: ", e).as_str(), ErrorCode::InternalError),
        ),
    }
}

/// The reply to a kill: `agent_exited` without a code on success (the
/// authoritative exit follows as an event), else `internal_error`.
pub fn kill_reply(agent_id: AgentId, result: &Result<(), ManagerError>) -> (r: ServerMessage)
    ensures
        match result {
            Ok(()) => r@ == (ServerModel::AgentExited { agent_id, exit_code: None, reason: None }),
            Err(e) => r@ == (ServerModel::Error {
                message: "Failed to kill agent: "@ + manager_error_text(*e),
                code: Some(code_for(*e)),
                agent_id: Some(agent_id),
            }),
        },
{
    match result {
        Ok(()) => ServerMessage::agent_exited(agent_id, None),
        Err(e) => ServerMessage::agent_error(agent_id, with_error("Failed to kill agent: ", e).as_str(), error_code(e)),
    }
}

/// The reply to a resize: `agent_resized` on success, else
/// `internal_error`.
pub fn resize_reply(agent_id: AgentId, cols: u16, rows: u16, result: &Result<AgentEvent, ManagerError>) -> (r:
    ServerMessage)
    ensures
        match result {
            Ok(_) => r@ == (ServerModel::AgentResized { agent_id, cols, rows }),
            Err(e) => r@ == (ServerModel::Error {
                message: "Failed to resize terminal: "@ + manager_error_text(*e),
                code: Some(code_for(*e)),
                agent_id: Some(agent_id),
            }),
        },
{
    match result {
        Ok(_) => ServerMessage::AgentResized { agent_id, cols, rows },
        Err(e) => ServerMessage::agent_error(
            agent_id,
            with_error("Failed to resize terminal: ", e).as_str(),
            error_code(e),
        ),
    }
}

/// The reply to a listing.
pub fn list_reply(agents: Vec<AgentInfo>) -> (r: ServerMessage)
    ensures
        r@ == (ServerModel::AgentList { agents: infos_view(agents@) }),
        r == (ServerMessage::AgentList { agents }),
{
    ServerMessage::AgentList { agents }
}

/// The reply to a status request: `agent_status`, or `agent_not_found`.
pub fn status_reply(agent_id: AgentId, result: &Result<AgentInfo, ManagerError>) -> (r: ServerMessage)
    ensures
        match result {
            Ok(info) => r@ == (ServerModel::AgentStatus {
                agent_id: info.agent_id,
                status: info.status,
                project_path: info.project_path@,
                cols: info.cols,
                rows: info.rows,
            }),
            Err(_) => r@ == (ServerModel::Error {
                message: "Agent not found"@,
                code: Some(ErrorCode::AgentNotFound),
                agent_id: Some(agent_id),
            }),
        },
{
    match result {
        Ok(info) => ServerMessage::AgentStatus {
            agent_id: info.agent_id,
            status: info.status,
            project_path: info.project_path.clone(),
            cols: info.cols,
            rows: info.rows,
        },
        Err(_) => ServerMessage::agent_error(agent_id, "Agent not found", ErrorCode::AgentNotFound),
    }
}

/// What the caller found out before a request is handled: whether the
/// project path exists and is a directory, the project's configuration,
/// and how launching, writing and resizing went. A request reads only the
/// facts it needs.
pub struct Outside {
    pub path_exists: bool,
    pub path_is_dir: bool,
    pub project: ProjectConfig,
    pub launched: Result<(), PtyError>,
    pub written: Result<(), PtyError>,
    pub resized: Result<(), String>,
}

impl Outside {
    /// No facts: for requests that need none.
    pub fn nothing() -> (r: Outside)
        ensures
            !r.path_exists,
            !r.path_is_dir,
            r.launched is Ok,
            r.written is Ok,
            r.resized is Ok,
    {
        Outside {
            path_exists: false,
            path_is_dir: false,
            project: ProjectConfig::default(),
            launched: Ok(()),
            written: Ok(()),
            resized: Ok(()),
        }
    }
}

/// What handling a request gives: the reply, the events to publish, the
/// agent started (whose terminal the caller keeps, and to which it writes
/// the initial prompt), the agent whose child the caller must kill, and the
/// identifier drawn for a new session.
pub struct Handled {
    pub reply: Option<ServerMessage>,
    pub events: Vec<AgentEvent>,
    pub spawned: Option<AgentId>,
    pub prompt: Option<String>,
    pub killed: Option<AgentId>,
    /// The identifier drawn for a session that was to be started.
    pub drawn: Option<AgentId>,
}

/// The registry and its event log did not change.
pub open spec fn unchanged(a: AgentManager, b: AgentManager) -> bool {
    b.spec_sessions() == a.spec_sessions() && b.events() == a.events()
}

/// Nothing to publish, start or kill.
pub open spec fn quiet(r: Handled) -> bool {
    r.events@.len() == 0 && r.spawned is None && r.prompt is None && r.killed is None
}

pub open spec fn reply_is(r: Handled, m: ServerModel) -> bool {
    r.reply is Some && r.reply.unwrap()@ == m
}

/// The reply is an `error` with this code and no agent.
pub open spec fn reply_error(r: Handled, code: ErrorCode) -> bool {
    r.reply is Some && is_error_with(r.reply.unwrap()@, code)
}

/// The reply is an `error` with this code, naming the agent.
pub open spec fn reply_agent_error(r: Handled, code: ErrorCode, id: AgentId) -> bool {
    r.reply is Some && (r.reply.unwrap()@ matches ServerModel::Error { code: c, agent_id: a, .. } && c == Some(code)
        && a == Some(id))
}

/// Spawning: `invalid_path` for a missing path or one that is not a
/// directory; `spawn_failed` when the child does not start; otherwise the
/// agent is registered, `Spawned` is published, and the reply is
/// `agent_spawned` with the requested or default size.
pub open spec fn spawn_handled(
    p: Seq<char>,
    cols: Option<u16>,
    rows: Option<u16>,
    old: AgentManager,
    new: AgentManager,
    o: Outside,
    r: Handled,
) -> bool {
    if !o.path_exists {
        unchanged(old, new) && quiet(r) && reply_is(
            r,
            ServerModel::Error { message: missing_path_text(p), code: Some(ErrorCode::InvalidPath), agent_id: None },
        )
    } else if !o.path_is_dir {
        unchanged(old, new) && quiet(r) && reply_is(
            r,
            ServerModel::Error { message: not_dir_text(p), code: Some(ErrorCode::InvalidPath), agent_id: None },
        )
    } else if o.launched is Err {
        unchanged(old, new) && quiet(r) && reply_error(r, ErrorCode::SpawnFailed)
    } else {
        // The child started: the spawn succeeds exactly when the drawn
        // identifier is not registered yet.
        &&& r.drawn is Some
        &&& (r.spawned is Some <==> !old.contains(r.drawn.unwrap()))
        &&& if r.spawned is Some {
            launched_spawn(p, cols, rows, old, new, r)
        } else {
            unchanged(old, new) && r.events@.len() == 0 && r.prompt is None && r.killed is None && reply_error(
                r,
                ErrorCode::SpawnFailed,
            )
        }
    }
}

/// A started session: registered under the drawn identifier, `Spawned`
/// published, and `agent_spawned` with the requested or default size.
pub open spec fn launched_spawn(
    p: Seq<char>,
    cols: Option<u16>,
    rows: Option<u16>,
    old: AgentManager,
    new: AgentManager,
    r: Handled,
) -> bool {
    let id = r.spawned.unwrap();
    &&& id == r.drawn.unwrap()
    &&& !old.contains(id) && new.contains(id)
    &&& new.spec_sessions() == old.spec_sessions().push(new.spec_sessions().last())
    &&& new.spec_sessions().last().spec_id() == id
    &&& new.events() == old.events().push((EventKind::Spawned, id))
    &&& r.events@.len() == 1 && spawned_event(r.events@[0], new.spec_sessions().last())
    &&& reply_is(
        r,
        ServerModel::AgentSpawned {
            agent_id: id,
            project_path: p,
            cols: size_or(cols, crate::protocol::DEFAULT_TERMINAL_COLS),
            rows: size_or(rows, crate::protocol::DEFAULT_TERMINAL_ROWS),
        },
    )
    &&& r.killed is None
}

/// Input: no reply when the agent is live and the write went through;
/// otherwise `internal_error` naming the agent.
pub open spec fn input_handled(id: AgentId, old: AgentManager, o: Outside, r: Handled) -> bool {
    if old.contains(id) && old.spec_send_check(id) is Ok && o.written is Ok {
        r.reply is None
    } else {
        reply_agent_error(r, ErrorCode::InternalError, id)
    }
}

/// Kill: `agent_not_found` for an unknown agent; otherwise `agent_exited`
/// without a code, the agent stays registered until its exit, and the
/// caller kills the child.
pub open spec fn kill_handled(id: AgentId, old: AgentManager, new: AgentManager, r: Handled) -> bool {
    if !old.contains(id) {
        unchanged(old, new) && quiet(r) && reply_agent_error(r, ErrorCode::AgentNotFound, id)
    } else {
        &&& reply_is(r, ServerModel::AgentExited { agent_id: id, exit_code: None, reason: None })
        &&& new.events() == old.events()
        &&& forall|x: AgentId| new.contains(x) == old.contains(x)
        &&& r.killed == Some(id) && r.events@.len() == 0 && r.spawned is None && r.prompt is None
    }
}

/// Resize: `agent_not_found` for an unknown agent; `agent_resized` and a
/// published `Resized` when the agent is live and the terminal took the
/// size; otherwise `internal_error` with sizes unchanged.
pub open spec fn resize_handled(
    id: AgentId,
    cols: u16,
    rows: u16,
    old: AgentManager,
    new: AgentManager,
    o: Outside,
    r: Handled,
) -> bool {
    &&& forall|x: AgentId| new.contains(x) == old.contains(x)
    &&& r.spawned is None && r.prompt is None && r.killed is None
    &&& if !old.contains(id) {
        unchanged(old, new) && r.events@.len() == 0 && reply_agent_error(r, ErrorCode::AgentNotFound, id)
    } else if old.spec_send_check(id) is Ok && o.resized is Ok {
        &&& reply_is(r, ServerModel::AgentResized { agent_id: id, cols, rows })
        &&& new.events() == old.events().push((EventKind::Resized, id))
        &&& r.events@ == seq![AgentEvent::Resized { agent_id: id, cols, rows }]
        &&& exists|i: int|
            0 <= i < new.spec_sessions().len() && (#[trigger] new.spec_sessions()[i]).spec_id() == id
                && new.spec_sessions()[i].spec_cols() == cols && new.spec_sessions()[i].spec_rows() == rows
    } else {
        &&& new.events() == old.events() && same_sizes(old.spec_sessions(), new.spec_sessions())
        &&& r.events@.len() == 0 && reply_agent_error(r, ErrorCode::InternalError, id)
    }
}

/// Status: `agent_status` of the registered session, or `agent_not_found`.
pub open spec fn status_handled(id: AgentId, old: AgentManager, r: Handled) -> bool {
    if !old.contains(id) {
        reply_is(r, ServerModel::Error { message: "Agent not found"@, code: Some(ErrorCode::AgentNotFound), agent_id: Some(id) })
    } else {
        r.reply is Some && exists|i: int|
            0 <= i < old.spec_sessions().len() && (#[trigger] old.spec_sessions()[i]).spec_id() == id
                && r.reply.unwrap()@ == (ServerModel::AgentStatus {
                agent_id: id,
                status: old.spec_sessions()[i].spec_state(),
                project_path: old.spec_sessions()[i].spec_path(),
                cols: old.spec_sessions()[i].spec_cols(),
                rows: old.spec_sessions()[i].spec_rows(),
            })
    }
}

/// Listing: every registered session, in order.
pub open spec fn list_handled(old: AgentManager, r: Handled) -> bool {
    r.reply is Some && (r.reply.unwrap() matches ServerMessage::AgentList { agents } && agents@.len()
        == old.spec_sessions().len() && forall|i: int|
        0 <= i < agents@.len() ==> info_matches(#[trigger] agents@[i], old.spec_sessions()[i]))
}

/// The reply to each valid request, and what it does to the registry.
pub open spec fn handled(m: ClientModel, old: AgentManager, new: AgentManager, o: Outside, r: Handled) -> bool {
    match m {
        ClientModel::Ping { seq } => unchanged(old, new) && quiet(r) && reply_is(r, ServerModel::Pong { seq }),
        ClientModel::Authenticate { .. } => unchanged(old, new) && quiet(r) && reply_is(
            r,
            ServerModel::Error { message: "Already authenticated"@, code: Some(ErrorCode::InvalidMessage), agent_id: None },
        ),
        ClientModel::SpawnAgent { project_path, cols, rows, .. } => spawn_handled(project_path, cols, rows, old, new, o, r),
        ClientModel::AgentInput { agent_id, .. } => unchanged(old, new) && quiet(r) && input_handled(agent_id, old, o, r),
        ClientModel::KillAgent { agent_id, .. } => kill_handled(agent_id, old, new, r),
        ClientModel::ResizeTerminal { agent_id, cols, rows } => resize_handled(agent_id, cols, rows, old, new, o, r),
        ClientModel::ListAgents => unchanged(old, new) && quiet(r) && list_handled(old, r),
        ClientModel::GetAgentStatus { agent_id } => unchanged(old, new) && quiet(r) && status_handled(agent_id, old, r),
    }
}

/// After a resize of a live agent that its terminal took, a status request
/// for that agent reports the new size.
pub proof fn law_resize_then_status(
    old: AgentManager,
    mid: AgentManager,
    o: Outside,
    r1: Handled,
    r2: Handled,
    id: AgentId,
    cols: u16,
    rows: u16,
)
    requires
        old.wf(),
        mid.wf(),
        old.contains(id),
        old.spec_send_check(id) is Ok,
        o.resized is Ok,
        resize_handled(id, cols, rows, old, mid, o, r1),
        status_handled(id, mid, r2),
    ensures
        r2.reply is Some,
        r2.reply.unwrap()@ matches ServerModel::AgentStatus { cols: c, rows: w, .. } && c == cols && w == rows,
{
    let s = mid.spec_sessions();
    let i = choose|i: int|
        0 <= i < s.len() && (#[trigger] s[i]).spec_id() == id && s[i].spec_cols() == cols && s[i].spec_rows() == rows;
    assert(mid.contains(id));
    let j = choose|j: int|
        0 <= j < s.len() && (#[trigger] s[j]).spec_id() == id && r2.reply.unwrap()@ == (ServerModel::AgentStatus {
            agent_id: id,
            status: s[j].spec_state(),
            project_path: s[j].spec_path(),
            cols: s[j].spec_cols(),
            rows: s[j].spec_rows(),
        });
    assert(i == j);
}

fn quiet_reply(m: ServerMessage) -> (r: Handled)
    ensures
        quiet(r),
        r.reply == Some(m),
{
    Handled { reply: Some(m), events: Vec::new(), spawned: None, prompt: None, killed: None, drawn: None }
}

/// Handles one text frame of an open connection: decodes it, performs the
/// request on the registry with the facts the caller gathered, and picks
/// the reply. Messages that do not decode, or break a bound, get an error
/// reply and change nothing.
pub fn handle_message(text: &str, command: &str, manager: &mut AgentManager, outside: Outside) -> (r: Handled)
    requires
        old(manager).wf(),
    ensures
        final(manager).wf(),
        match envelope_verdict(text@) {
            EnvelopeVerdict::Accepted(_, m) => handled(m, *old(manager), *final(manager), outside, r),
            EnvelopeVerdict::Unsupported(v) => unchanged(*old(manager), *final(manager)) && quiet(r) && reply_is(
                r,
                ServerModel::Error {
                    message: protocol_error_text(ProtocolError::UnsupportedVersion(v)),
                    code: Some(ErrorCode::UnsupportedVersion),
                    agent_id: None,
                },
            ),
            _ => unchanged(*old(manager), *final(manager)) && quiet(r) && reply_error(r, ErrorCode::InvalidMessage),
        },
{
    let ghost before = *manager;
    let ghost facts = outside;
    match decode_request(text) {
        Request::Reply(m) => quiet_reply(m),
        Request::Spawn { project_path, preset, cols, rows } => {
            let preset_name = match &preset {
                Some(n) => Some(n.as_str()),
                None => None,
            };
            let config = match spawn_plan(
                command,
                project_path.as_str(),
                preset_name,
                cols,
                rows,
                outside.path_exists,
                outside.path_is_dir,
                &outside.project,
            ) {
                Err(reply) => {
                    return quiet_reply(reply);
                },
                Ok(config) => config,
            };
            let prompt = match &config.initial_prompt {
                Some(t) => Some(t.clone()),
                None => None,
            };
            let session = match AgentManager::prepare_spawn(config, outside.path_exists, outside.path_is_dir) {
                Err(e) => {
                    return quiet_reply(spawn_reply(project_path.as_str(), cols, rows, &Err(e)));
                },
                Ok((session, _)) => session,
            };
            let drawn = session.id();
            match manager.spawn_agent(session, outside.launched) {
                Ok((id, event)) => {
                    let reply = spawn_reply(project_path.as_str(), cols, rows, &Ok(id));
                    let mut events: Vec<AgentEvent> = Vec::new();
                    events.push(event);
                    Handled { reply: Some(reply), events, spawned: Some(id), prompt, killed: None, drawn: Some(id) }
                },
                Err(e) => {
                    let mut h = quiet_reply(spawn_reply(project_path.as_str(), cols, rows, &Err(e)));
                    h.drawn = Some(drawn);
                    h
                },
            }
        },
        Request::Input { agent_id, .. } => {
            let result = match manager.send_input(agent_id) {
                Err(e) => Err(e),
                Ok(()) => match outside.written {
                    Ok(()) => Ok(()),
                    Err(e) => Err(ManagerError::SessionError(SessionError::PtyError(e))),
                },
            };
            Handled {
                reply: input_reply(agent_id, &result),
                events: Vec::new(),
                spawned: None,
                prompt: None,
                killed: None,
                drawn: None,
            }
        },
        Request::Kill { agent_id } => {
            let result = manager.kill_agent(agent_id);
            let reply = kill_reply(agent_id, &result);
            let killed = if result.is_ok() {
                Some(agent_id)
            } else {
                None
            };
            Handled { reply: Some(reply), events: Vec::new(), spawned: None, prompt: None, killed, drawn: None }
        },
        Request::Resize { agent_id, cols, rows } => {
            match manager.resize_target(agent_id) {
                Err(e) => {
                    assert(same_sizes(before.spec_sessions(), manager.spec_sessions()));
                    assert(manager.events() == before.events());
                    quiet_reply(resize_reply(agent_id, cols, rows, &Err(e)))
                },
                Ok(()) => {
                    let result = manager.resize_agent(agent_id, cols, rows, outside.resized);
                    let reply = resize_reply(agent_id, cols, rows, &result);
                    let mut events: Vec<AgentEvent> = Vec::new();
                    match result {
                        Ok(event) => events.push(event),
                        Err(_) => {},
                    }
                    Handled { reply: Some(reply), events, spawned: None, prompt: None, killed: None, drawn: None }
                },
            }
        },
        Request::List => quiet_reply(list_reply(manager.list_agents())),
        Request::Status { agent_id } => quiet_reply(status_reply(agent_id, &manager.get_agent_status(agent_id))),
    }
}

/// One client's connection: the token it must present, and whether it has.
pub struct ConnectionHandler {
    token: Option<String>,
    authenticated: bool,
    announced: Vec<AgentId>,
    sent: Ghost<Seq<ServerModel>>,
}

/// Message `k` of `sent` announces agent `id`.
pub open spec fn announces(sent: Seq<ServerModel>, k: int, id: AgentId) -> bool {
    0 <= k < sent.len() && (sent[k] matches ServerModel::AgentSpawned { agent_id, .. } && agent_id == id)
}

/// Some message of `sent` announces agent `id`.
pub open spec fn announced_in(sent: Seq<ServerModel>, id: AgentId) -> bool {
    exists|k: int| #[trigger] announces(sent, k, id)
}

/// The agent whose output `m` carries, if it is output.
pub open spec fn output_of(m: ServerModel) -> Option<AgentId> {
    match m {
        ServerModel::AgentOutput { agent_id, .. } => Some(agent_id),
        _ => None,
    }
}

/// Every output message names an agent announced before it.
pub open spec fn outputs_announced(sent: Seq<ServerModel>) -> bool {
    forall|j: int|
        0 <= j < sent.len() && (#[trigger] output_of(sent[j])) is Some ==> exists|k: int|
            k < j && #[trigger] announces(sent, k, output_of(sent[j]).unwrap())
}

proof fn lemma_push_keeps_announced(sent: Seq<ServerModel>, m: ServerModel, id: AgentId)
    ensures
        announced_in(sent, id) ==> announced_in(sent.push(m), id),
        announced_in(sent.push(m), id) == (announced_in(sent, id) || announces(seq![m], 0, id)),
{
    let t = sent.push(m);
    if announced_in(sent, id) {
        let k = choose|k: int| #[trigger] announces(sent, k, id);
        assert(announces(t, k, id));
    }
    if announced_in(t, id) {
        let k = choose|k: int| #[trigger] announces(t, k, id);
        if k < sent.len() {
            assert(announces(sent, k, id));
        } else {
            assert(announces(seq![m], 0, id));
        }
    }
    if announces(seq![m], 0, id) {
        assert(announces(t, sent.len() as int, id));
    }
}

impl ConnectionHandler {
    pub closed spec fn spec_token(&self) -> Option<Seq<char>> {
        crate::protocol::opt_view(self.token)
    }

    pub closed spec fn spec_authenticated(&self) -> bool {
        self.authenticated
    }

    /// Every message that went out on this connection, in order.
    pub closed spec fn spec_sent(&self) -> Seq<ServerModel> {
        self.sent@
    }

    /// The agents this connection knows are the ones its `agent_spawned`
    /// messages announced, and every output it sent was announced first.
    pub closed spec fn wf(&self) -> bool {
        &&& forall|id: AgentId|
            #![trigger self.announced@.contains(id)]
            #![trigger announced_in(self.sent@, id)]
            self.announced@.contains(id) == announced_in(self.sent@, id)
        &&& outputs_announced(self.sent@)
    }

    /// Every `agent_output` sent on this connection names an agent that an
    /// earlier `agent_spawned` on this connection announced.
    pub proof fn law_output_follows_announcement(&self, j: int)
        requires
            self.wf(),
            0 <= j < self.spec_sent().len(),
            self.spec_sent()[j] is AgentOutput,
        ensures
            exists|k: int| k < j && #[trigger] announces(self.spec_sent(), k, self.spec_sent()[j]->AgentOutput_agent_id),
    {
        assert(output_of(self.sent@[j]) is Some);
        let k = choose|k: int| k < j && #[trigger] announces(self.sent@, k, output_of(self.sent@[j]).unwrap());
        assert(announces(self.sent@, k, output_of(self.sent@[j]).unwrap()));
    }

    fn is_announced(&self, id: AgentId) -> (r: bool)
        requires
            self.wf(),
        ensures
            r == announced_in(self.spec_sent(), id),
    {
        let mut i: usize = 0;
        while i < self.announced.len()
            invariant
                self.wf(),
                i <= self.announced.len(),
                forall|j: int| 0 <= j < i ==> self.announced@[j] != id,
            decreases self.announced.len() - i,
        {
            if self.announced[i] == id {
                assert(self.announced@.contains(id));
                return true;
            }
            i += 1;
        }
        assert(!self.announced@.contains(id));
        false
    }

    /// Every message bound for the client passes here. An `agent_output`
    /// for an agent this connection never announced is withheld; every
    /// other message goes out and is recorded, and `agent_spawned`
    /// announces its agent.
    pub fn outgoing(&mut self, m: ServerMessage) -> (r: Option<ServerMessage>)
        requires
            old(self).wf(),
        ensures
            final(self).wf(),
            final(self).spec_token() == old(self).spec_token(),
            final(self).spec_authenticated() == old(self).spec_authenticated(),
            r is None <==> (output_of(m@) is Some && !announced_in(old(self).spec_sent(), output_of(m@).unwrap())),
            r is Some ==> r == Some(m) && final(self).spec_sent() == old(self).spec_sent().push(m@),
            r is None ==> final(self).spec_sent() == old(self).spec_sent(),
    {
        let ghost before = self.sent@;
        let spawned = match &m {
            ServerMessage::AgentOutput { agent_id, .. } => {
                if !self.is_announced(*agent_id) {
                    return None;
                }
                None
            },
            ServerMessage::AgentSpawned { agent_id, .. } => Some(*agent_id),
            _ => None,
        };
        self.sent = Ghost(self.sent@.push(m@));
        if let Some(id) = spawned {
            self.announced.push(id);
        }
        proof {
            let t = self.sent@;
            assert forall|x: AgentId| self.announced@.contains(x) == announced_in(t, x) by {
                lemma_push_keeps_announced(before, m@, x);
                if spawned is Some && x == spawned.unwrap() {
                    assert(announces(seq![m@], 0, x));
                    assert(self.announced@[self.announced@.len() - 1] == x);
                }
                if self.announced@.contains(x) {
                    let i = choose|i: int| 0 <= i < self.announced@.len() && self.announced@[i] == x;
                    if spawned is None || i < self.announced@.len() - 1 {
                        assert(old(self).announced@.contains(x)) by {
                            assert(old(self).announced@[i] == x);
                        }
                    }
                }
                if old(self).announced@.contains(x) {
                    let i = choose|i: int| 0 <= i < old(self).announced@.len() && old(self).announced@[i] == x;
                    assert(self.announced@[i] == x);
                }
            }
            assert forall|j: int|
                0 <= j < t.len() && (#[trigger] output_of(t[j])) is Some implies exists|k: int|
                k < j && #[trigger] announces(t, k, output_of(t[j]).unwrap()) by {
                if j < before.len() {
                    assert(t[j] == before[j]);
                    let k = choose|k: int| k < j && #[trigger] announces(before, k, output_of(before[j]).unwrap());
                    assert(announces(t, k, output_of(t[j]).unwrap()));
                } else {
                    let id = output_of(m@).unwrap();
                    let k = choose|k: int| #[trigger] announces(before, k, id);
                    assert(announces(t, k, id));
                }
            }
        }
        Some(m)
    }

    /// A connection to a server without a token: open from the start.
    pub fn new() -> (r: ConnectionHandler)
        ensures
            r.wf(),
            r.spec_sent().len() == 0,
            r.spec_token() is None,
            r.spec_authenticated(),
    {
        ConnectionHandler { token: None, authenticated: true, announced: Vec::new(), sent: Ghost(Seq::empty()) }
    }

    /// A connection to a server with this token, if any: closed until the
    /// token is presented.
    pub fn with_token(token: Option<String>) -> (r: ConnectionHandler)
        ensures
            r.wf(),
            r.spec_sent().len() == 0,
            r.spec_token() == crate::protocol::opt_view(token),
            r.spec_authenticated() == token is None,
    {
        let authenticated = token.is_none();
        ConnectionHandler { token, authenticated, announced: Vec::new(), sent: Ghost(Seq::empty()) }
    }

    /// Whether the handshake is still pending.
    pub fn needs_auth(&self) -> (r: bool)
        ensures
            r == !self.spec_authenticated(),
    {
        !self.authenticated
    }

    /// The handshake: the first text frame must be `authenticate` with the
    /// server's token. A match opens the connection; a mismatch, another
    /// message, a malformed frame, a close, an error, the end of the stream
    /// or the deadline reject it with `auth_failed`. Transport pings and
    /// other frames are waited past.
    pub fn on_auth_frame(&mut self, f: &AuthFrame) -> (r: AuthStep)
        requires
            old(self).wf(),
        ensures
            final(self).wf(),
            final(self).spec_sent() == old(self).spec_sent(),
            final(self).spec_token() == old(self).spec_token(),
            final(self).spec_authenticated() == (old(self).spec_authenticated() || r is Accepted),
            r matches AuthStep::Accepted(m) ==> m@ == ServerModel::AuthSuccess,
            r matches AuthStep::Rejected(m) ==> is_error_with(m@, ErrorCode::AuthFailed),
            (f == &AuthFrame::Ping || f == &AuthFrame::Other) <==> r is Wait,
            r is Accepted <==> (f matches AuthFrame::Text(t) && old(self).spec_token() matches Some(k) && (
            client_of_text(t@) matches Some(ClientModel::Authenticate { token }) && token == k)),
    {
        match f {
            AuthFrame::Ping | AuthFrame::Other => AuthStep::Wait,
            AuthFrame::Text(t) => match ClientMessage::from_json(t.as_str()) {
                Ok(ClientMessage::Authenticate { token }) => {
                    let good = match &self.token {
                        Some(k) => *k == token,
                        None => false,
                    };
                    if good {
                        self.authenticated = true;
                        AuthStep::Accepted(ServerMessage::auth_success())
                    } else {
                        AuthStep::Rejected(
                            ServerMessage::error_with_code("Invalid authentication token", ErrorCode::AuthFailed),
                        )
                    }
                },
                Ok(_) => AuthStep::Rejected(
                    ServerMessage::error_with_code(
                        "Authentication required before other messages",
                        ErrorCode::AuthFailed,
                    ),
                ),
                Err(e) => AuthStep::Rejected(
                    ServerMessage::error_with_code(e.to_string().as_str(), ErrorCode::AuthFailed),
                ),
            },
            AuthFrame::Close => AuthStep::Rejected(
                ServerMessage::error_with_code("Connection closed during authentication", ErrorCode::AuthFailed),
            ),
            AuthFrame::Error(e) => {
                let mut m = String::new();
                push_str(&mut m, "WebSocket error during authentication: ");
                push_str(&mut m, e.as_str());
                AuthStep::Rejected(ServerMessage::error_with_code(m.as_str(), ErrorCode::AuthFailed))
            },
            AuthFrame::Ended => AuthStep::Rejected(
                ServerMessage::error_with_code("Connection closed before authentication", ErrorCode::AuthFailed),
            ),
            AuthFrame::TimedOut => AuthStep::Rejected(
                ServerMessage::error_with_code("Authentication timeout", ErrorCode::AuthFailed),
            ),
        }
    }
}

impl Default for ConnectionHandler {
    /// The same as `new`.
    fn default() -> (r: ConnectionHandler)
        ensures
            r.wf(),
            r.spec_token() is None,
            r.spec_authenticated(),
    {
        ConnectionHandler::new()
    }
}

} // verus!
