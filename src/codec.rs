//! The wire form of messages: a JSON object whose `type` member names the
//! variant in snake case and whose other members are the variant's fields.

use vstd::prelude::*;
use crate::ids::{format_uuid, parse_uuid, uuid_parse, uuid_text};
use crate::json::{members_view, ScalarModel, ValueModel, Scalar, Value};
use crate::protocol::{
    AgentId, AgentInfo, AgentState, ClientEnvelope, ClientMessage, ClientModel, ErrorCode, InfoModel,
    ProtocolError, ServerEnvelope, ServerMessage, ServerModel, MIN_PROTOCOL_VERSION, PROTOCOL_VERSION,
    code_name, infos_view, is_validation_error, state_name, validation_failure,
};
use crate::json::{object_text, parse_document, parse_object, write_object};

verus! {

pub type Members = Seq<(Seq<char>, ValueModel)>;

/// The written form of this identifier reads back as it.
pub open spec fn id_reads_back(id: AgentId) -> bool {
    uuid_parse(uuid_text(id)) == Some(id)
}

/// The message's agent identifier, if it has one, reads back.
pub open spec fn client_ids_read_back(m: ClientModel) -> bool {
    match m {
        ClientModel::AgentInput { agent_id, .. } => id_reads_back(agent_id),
        ClientModel::KillAgent { agent_id, .. } => id_reads_back(agent_id),
        ClientModel::ResizeTerminal { agent_id, .. } => id_reads_back(agent_id),
        ClientModel::GetAgentStatus { agent_id } => id_reads_back(agent_id),
        _ => true,
    }
}

pub open spec fn text_member(k: Seq<char>, v: Seq<char>) -> (Seq<char>, ValueModel) {
    (k, ValueModel::Scalar(ScalarModel::Str(v)))
}

pub open spec fn int_member(k: Seq<char>, n: int) -> (Seq<char>, ValueModel) {
    (k, ValueModel::Scalar(ScalarModel::Int(n)))
}

pub open spec fn id_member(k: Seq<char>, id: AgentId) -> (Seq<char>, ValueModel) {
    text_member(k, uuid_text(id))
}

pub open spec fn type_member(name: Seq<char>) -> (Seq<char>, ValueModel) {
    text_member("type"@, name)
}

/// A member that is left out when the field is `None`.
pub open spec fn opt_text_member(k: Seq<char>, o: Option<Seq<char>>) -> Members {
    match o {
        Some(t) => seq![text_member(k, t)],
        None => seq![],
    }
}

pub open spec fn opt_int_member(k: Seq<char>, o: Option<int>) -> Members {
    match o {
        Some(n) => seq![int_member(k, n)],
        None => seq![],
    }
}

pub open spec fn opt_u16_int(o: Option<u16>) -> Option<int> {
    match o {
        Some(n) => Some(n as int),
        None => None,
    }
}

pub open spec fn opt_i32_int(o: Option<i32>) -> Option<int> {
    match o {
        Some(n) => Some(n as int),
        None => None,
    }
}

/// The members of a client message, in the order they are written.
pub open spec fn client_members(m: ClientModel) -> Members {
    match m {
        ClientModel::Ping { seq } => seq![type_member("ping"@), int_member("seq"@, seq as int)],
        ClientModel::Authenticate { token } => seq![
            type_member("authenticate"@),
            text_member("token"@, token),
        ],
        ClientModel::SpawnAgent { project_path, preset, cols, rows } => seq![
            type_member("spawn_agent"@),
            text_member("project_path"@, project_path),
        ] + opt_text_member("preset"@, preset) + opt_int_member("cols"@, opt_u16_int(cols))
            + opt_int_member("rows"@, opt_u16_int(rows)),
        ClientModel::AgentInput { agent_id, input } => seq![
            type_member("agent_input"@),
            id_member("agent_id"@, agent_id),
            text_member("input"@, input),
        ],
        ClientModel::KillAgent { agent_id, signal } => seq![
            type_member("kill_agent"@),
            id_member("agent_id"@, agent_id),
        ] + opt_int_member("signal"@, opt_i32_int(signal)),
        ClientModel::ResizeTerminal { agent_id, cols, rows } => seq![
            type_member("resize_terminal"@),
            id_member("agent_id"@, agent_id),
            int_member("cols"@, cols as int),
            int_member("rows"@, rows as int),
        ],
        ClientModel::ListAgents => seq![type_member("list_agents"@)],
        ClientModel::GetAgentStatus { agent_id } => seq![
            type_member("get_agent_status"@),
            id_member("agent_id"@, agent_id),
        ],
    }
}

pub open spec fn info_row(a: InfoModel) -> Seq<(Seq<char>, ScalarModel)> {
    seq![
        ("agent_id"@, ScalarModel::Str(uuid_text(a.agent_id))),
        ("project_path"@, ScalarModel::Str(a.project_path)),
        ("status"@, ScalarModel::Str(state_name(a.status))),
        ("cols"@, ScalarModel::Int(a.cols as int)),
        ("rows"@, ScalarModel::Int(a.rows as int)),
    ]
}

pub open spec fn opt_code_name(c: Option<ErrorCode>) -> Option<Seq<char>> {
    match c {
        Some(c) => Some(code_name(c)),
        None => None,
    }
}

pub open spec fn opt_id_member(k: Seq<char>, o: Option<AgentId>) -> Members {
    match o {
        Some(id) => seq![id_member(k, id)],
        None => seq![],
    }
}

/// The members of a server message, in the order they are written.
pub open spec fn server_members(m: ServerModel) -> Members {
    match m {
        ServerModel::Welcome { version, server_id } => seq![
            type_member("welcome"@),
            int_member("version"@, version as int),
        ] + opt_text_member("server_id"@, server_id),
        ServerModel::AuthSuccess => seq![type_member("auth_success"@)],
        ServerModel::Pong { seq } => seq![type_member("pong"@), int_member("seq"@, seq as int)],
        ServerModel::AgentSpawned { agent_id, project_path, cols, rows } => seq![
            type_member("agent_spawned"@),
            id_member("agent_id"@, agent_id),
            text_member("project_path"@, project_path),
            int_member("cols"@, cols as int),
            int_member("rows"@, rows as int),
        ],
        ServerModel::AgentOutput { agent_id, data } => seq![
            type_member("agent_output"@),
            id_member("agent_id"@, agent_id),
            text_member("data"@, data),
        ],
        ServerModel::AgentExited { agent_id, exit_code, reason } => seq![
            type_member("agent_exited"@),
            id_member("agent_id"@, agent_id),
        ] + opt_int_member("exit_code"@, opt_i32_int(exit_code)) + opt_text_member("reason"@, reason),
        ServerModel::AgentResized { agent_id, cols, rows } => seq![
            type_member("agent_resized"@),
            id_member("agent_id"@, agent_id),
            int_member("cols"@, cols as int),
            int_member("rows"@, rows as int),
        ],
        ServerModel::AgentList { agents } => seq![
            type_member("agent_list"@),
            ("agents"@, ValueModel::Rows(agents.map_values(|a: InfoModel| info_row(a)))),
        ],
        ServerModel::AgentStatus { agent_id, status, project_path, cols, rows } => seq![
            type_member("agent_status"@),
            id_member("agent_id"@, agent_id),
            text_member("status"@, state_name(status)),
            text_member("project_path"@, project_path),
            int_member("cols"@, cols as int),
            int_member("rows"@, rows as int),
        ],
        ServerModel::Error { message, code, agent_id } => seq![
            type_member("error"@),
            text_member("message"@, message),
        ] + opt_text_member("code"@, opt_code_name(code)) + opt_id_member("agent_id"@, agent_id),
    }
}

fn text_entry(k: &str, v: &str) -> (r: (String, Value))
    ensures
        (r.0@, r.1@) == text_member(k@, v@),
{
    (k.to_owned(), Value::Scalar(Scalar::Str(v.to_owned())))
}

fn int_entry(k: &str, n: i128) -> (r: (String, Value))
    ensures
        (r.0@, r.1@) == int_member(k@, n as int),
{
    (k.to_owned(), Value::Scalar(Scalar::Int(n)))
}

fn id_entry(k: &str, id: AgentId) -> (r: (String, Value))
    ensures
        (r.0@, r.1@) == id_member(k@, id),
        id_reads_back(id),
{
    let t = format_uuid(id);
    (k.to_owned(), Value::Scalar(Scalar::Str(t)))
}

/// The members of a client message.
pub fn client_to_members(m: &ClientMessage) -> (r: Vec<(String, Value)>)
    ensures
        members_view(r@) == client_members(m@),
        client_ids_read_back(m@),
{
    let mut v: Vec<(String, Value)> = Vec::new();
    match m {
        ClientMessage::Ping { seq } => {
            v.push(text_entry("type", "ping"));
            v.push(int_entry("seq", *seq as i128));
        },
        ClientMessage::Authenticate { token } => {
            v.push(text_entry("type", "authenticate"));
            v.push(text_entry("token", token.as_str()));
        },
        ClientMessage::SpawnAgent { project_path, preset, cols, rows } => {
            v.push(text_entry("type", "spawn_agent"));
            v.push(text_entry("project_path", project_path.as_str()));
            if let Some(p) = preset {
                v.push(text_entry("preset", p.as_str()));
            }
            if let Some(c) = cols {
                v.push(int_entry("cols", *c as i128));
            }
            if let Some(rw) = rows {
                v.push(int_entry("rows", *rw as i128));
            }
        },
        ClientMessage::AgentInput { agent_id, input } => {
            v.push(text_entry("type", "agent_input"));
            v.push(id_entry("agent_id", *agent_id));
            v.push(text_entry("input", input.as_str()));
        },
        ClientMessage::KillAgent { agent_id, signal } => {
            v.push(text_entry("type", "kill_agent"));
            v.push(id_entry("agent_id", *agent_id));
            if let Some(sg) = signal {
                v.push(int_entry("signal", *sg as i128));
            }
        },
        ClientMessage::ResizeTerminal { agent_id, cols, rows } => {
            v.push(text_entry("type", "resize_terminal"));
            v.push(id_entry("agent_id", *agent_id));
            v.push(int_entry("cols", *cols as i128));
            v.push(int_entry("rows", *rows as i128));
        },
        ClientMessage::ListAgents => {
            v.push(text_entry("type", "list_agents"));
        },
        ClientMessage::GetAgentStatus { agent_id } => {
            v.push(text_entry("type", "get_agent_status"));
            v.push(id_entry("agent_id", *agent_id));
        },
    }
    assert(members_view(v@) =~= client_members(m@));
    v
}


fn info_to_row(a: &AgentInfo) -> (r: crate::json::Row)
    ensures
        crate::json::row_view(r@) == info_row(a@),
{
    let mut v: crate::json::Row = Vec::new();
    v.push(("agent_id".to_owned(), Scalar::Str(format_uuid(a.agent_id))));
    v.push(("project_path".to_owned(), Scalar::Str(a.project_path.clone())));
    v.push(("status".to_owned(), Scalar::Str(a.status.as_str().to_owned())));
    v.push(("cols".to_owned(), Scalar::Int(a.cols as i128)));
    v.push(("rows".to_owned(), Scalar::Int(a.rows as i128)));
    assert(crate::json::row_view(v@) =~= info_row(a@));
    v
}

/// The members of a server message.
pub fn server_to_members(m: &ServerMessage) -> (r: Vec<(String, Value)>)
    ensures
        members_view(r@) == server_members(m@),
{
    let mut v: Vec<(String, Value)> = Vec::new();
    match m {
        ServerMessage::Welcome { version, server_id } => {
            v.push(text_entry("type", "welcome"));
            v.push(int_entry("version", *version as i128));
            if let Some(sid) = server_id {
                v.push(text_entry("server_id", sid.as_str()));
            }
        },
        ServerMessage::AuthSuccess => {
            v.push(text_entry("type", "auth_success"));
        },
        ServerMessage::Pong { seq } => {
            v.push(text_entry("type", "pong"));
            v.push(int_entry("seq", *seq as i128));
        },
        ServerMessage::AgentSpawned { agent_id, project_path, cols, rows } => {
            v.push(text_entry("type", "agent_spawned"));
            v.push(id_entry("agent_id", *agent_id));
            v.push(text_entry("project_path", project_path.as_str()));
            v.push(int_entry("cols", *cols as i128));
            v.push(int_entry("rows", *rows as i128));
        },
        ServerMessage::AgentOutput { agent_id, data } => {
            v.push(text_entry("type", "agent_output"));
            v.push(id_entry("agent_id", *agent_id));
            v.push(text_entry("data", data.as_str()));
        },
        ServerMessage::AgentExited { agent_id, exit_code, reason } => {
            v.push(text_entry("type", "agent_exited"));
            v.push(id_entry("agent_id", *agent_id));
            if let Some(c) = exit_code {
                v.push(int_entry("exit_code", *c as i128));
            }
            if let Some(t) = reason {
                v.push(text_entry("reason", t.as_str()));
            }
        },
        ServerMessage::AgentResized { agent_id, cols, rows } => {
            v.push(text_entry("type", "agent_resized"));
            v.push(id_entry("agent_id", *agent_id));
            v.push(int_entry("cols", *cols as i128));
            v.push(int_entry("rows", *rows as i128));
        },
        ServerMessage::AgentList { agents } => {
            v.push(text_entry("type", "agent_list"));
            let mut rows: Vec<crate::json::Row> = Vec::new();
            let mut i: usize = 0;
            while i < agents.len()
                invariant
                    i <= agents.len(),
                    crate::json::rows_view(rows@) == infos_view(agents@).take(i as int).map_values(
                        |a: InfoModel| info_row(a),
                    ),
                decreases agents.len() - i,
            {
                let ghost before = crate::json::rows_view(rows@);
                let row = info_to_row(&agents[i]);
                let ghost rv = crate::json::row_view(row@);
                rows.push(row);
                assert(crate::json::rows_view(rows@) =~= before.push(rv));
                assert(infos_view(agents@).take(i as int + 1) =~= infos_view(agents@).take(i as int).push(
                    agents@[i as int]@,
                ));
                assert(crate::json::rows_view(rows@) =~= infos_view(agents@).take(i as int + 1).map_values(
                    |a: InfoModel| info_row(a),
                ));
                i += 1;
            }
            assert(infos_view(agents@).take(i as int) =~= infos_view(agents@));
            v.push(("agents".to_owned(), Value::Rows(rows)));
        },
        ServerMessage::AgentStatus { agent_id, status, project_path, cols, rows } => {
            v.push(text_entry("type", "agent_status"));
            v.push(id_entry("agent_id", *agent_id));
            v.push(text_entry("status", status.as_str()));
            v.push(text_entry("project_path", project_path.as_str()));
            v.push(int_entry("cols", *cols as i128));
            v.push(int_entry("rows", *rows as i128));
        },
        ServerMessage::Error { message, code, agent_id } => {
            v.push(text_entry("type", "error"));
            v.push(text_entry("message", message.as_str()));
            if let Some(c) = code {
                v.push(text_entry("code", c.as_str()));
            }
            if let Some(id) = agent_id {
                v.push(id_entry("agent_id", *id));
            }
        },
    }
    assert(members_view(v@) =~= server_members(m@));
    v
}


// ---------------------------------------------------------------------------
// Reading members back
// ---------------------------------------------------------------------------

/// The value of the first member named `key` from position `i` on.
pub open spec fn lookup_from(ms: Members, key: Seq<char>, i: int) -> Option<ValueModel>
    decreases ms.len() - i,
{
    if i < 0 || i >= ms.len() {
        None
    } else if ms[i].0 == key {
        Some(ms[i].1)
    } else {
        lookup_from(ms, key, i + 1)
    }
}

/// The value of the first member named `key`.
pub open spec fn lookup(ms: Members, key: Seq<char>) -> Option<ValueModel> {
    lookup_from(ms, key, 0)
}

/// A required text field.
pub open spec fn get_text(v: Option<ValueModel>) -> Option<Seq<char>> {
    match v {
        Some(ValueModel::Scalar(ScalarModel::Str(t))) => Some(t),
        _ => None,
    }
}

/// A required integer field within `[lo, hi]`.
pub open spec fn get_int(v: Option<ValueModel>, lo: int, hi: int) -> Option<int> {
    match v {
        Some(ValueModel::Scalar(ScalarModel::Int(n))) => if lo <= n <= hi {
            Some(n)
        } else {
            None
        },
        _ => None,
    }
}

/// An optional text field: absent or null is `Some(None)`; `None` when
/// the member holds something else.
pub open spec fn get_opt_text(v: Option<ValueModel>) -> Option<Option<Seq<char>>> {
    match v {
        None => Some(None),
        Some(ValueModel::Scalar(ScalarModel::Null)) => Some(None),
        Some(ValueModel::Scalar(ScalarModel::Str(t))) => Some(Some(t)),
        _ => None,
    }
}

/// An optional integer field within `[lo, hi]`.
pub open spec fn get_opt_int(v: Option<ValueModel>, lo: int, hi: int) -> Option<Option<int>> {
    match v {
        None => Some(None),
        Some(ValueModel::Scalar(ScalarModel::Null)) => Some(None),
        Some(ValueModel::Scalar(ScalarModel::Int(n))) => if lo <= n <= hi {
            Some(Some(n))
        } else {
            None
        },
        _ => None,
    }
}

/// A required UUID field.
pub open spec fn get_id(v: Option<ValueModel>) -> Option<AgentId> {
    match get_text(v) {
        Some(t) => uuid_parse(t),
        None => None,
    }
}

/// An optional UUID field.
pub open spec fn get_opt_id(v: Option<ValueModel>) -> Option<Option<AgentId>> {
    match get_opt_text(v) {
        Some(Some(t)) => match uuid_parse(t) {
            Some(id) => Some(Some(id)),
            None => None,
        },
        Some(None) => Some(None),
        None => None,
    }
}

pub open spec fn as_u16(o: Option<int>) -> Option<u16> {
    match o {
        Some(n) => Some(n as u16),
        None => None,
    }
}

pub open spec fn as_i32(o: Option<int>) -> Option<i32> {
    match o {
        Some(n) => Some(n as i32),
        None => None,
    }
}

pub open spec fn u16_max() -> int {
    u16::MAX as int
}

/// The members that a client message may have.
pub struct ClientFields {
    pub ty: Option<ValueModel>,
    pub seq: Option<ValueModel>,
    pub token: Option<ValueModel>,
    pub project_path: Option<ValueModel>,
    pub preset: Option<ValueModel>,
    pub cols: Option<ValueModel>,
    pub rows: Option<ValueModel>,
    pub agent_id: Option<ValueModel>,
    pub input: Option<ValueModel>,
    pub signal: Option<ValueModel>,
}

pub open spec fn client_fields(ms: Members) -> ClientFields {
    ClientFields {
        ty: lookup(ms, "type"@),
        seq: lookup(ms, "seq"@),
        token: lookup(ms, "token"@),
        project_path: lookup(ms, "project_path"@),
        preset: lookup(ms, "preset"@),
        cols: lookup(ms, "cols"@),
        rows: lookup(ms, "rows"@),
        agent_id: lookup(ms, "agent_id"@),
        input: lookup(ms, "input"@),
        signal: lookup(ms, "signal"@),
    }
}

/// The client message that a document's members describe, if any.
pub open spec fn client_of(ms: Members) -> Option<ClientModel> {
    client_from_fields(client_fields(ms))
}

/// The client message that these members describe, if any.
pub open spec fn client_from_fields(f: ClientFields) -> Option<ClientModel> {
    match get_text(f.ty) {
        None => None,
        Some(t) => if t == "ping"@ {
            match get_int(f.seq, 0, u64::MAX as int) {
                Some(n) => Some(ClientModel::Ping { seq: n as u64 }),
                None => None,
            }
        } else if t == "authenticate"@ {
            match get_text(f.token) {
                Some(token) => Some(ClientModel::Authenticate { token }),
                None => None,
            }
        } else if t == "spawn_agent"@ {
            match (
                get_text(f.project_path),
                get_opt_text(f.preset),
                get_opt_int(f.cols, 0, u16_max()),
                get_opt_int(f.rows, 0, u16_max()),
            ) {
                (Some(project_path), Some(preset), Some(cols), Some(rows)) => Some(
                    ClientModel::SpawnAgent { project_path, preset, cols: as_u16(cols), rows: as_u16(rows) },
                ),
                _ => None,
            }
        } else if t == "agent_input"@ {
            match (get_id(f.agent_id), get_text(f.input)) {
                (Some(agent_id), Some(input)) => Some(ClientModel::AgentInput { agent_id, input }),
                _ => None,
            }
        } else if t == "kill_agent"@ {
            match (
                get_id(f.agent_id),
                get_opt_int(f.signal, i32::MIN as int, i32::MAX as int),
            ) {
                (Some(agent_id), Some(signal)) => Some(ClientModel::KillAgent { agent_id, signal: as_i32(signal) }),
                _ => None,
            }
        } else if t == "resize_terminal"@ {
            match (
                get_id(f.agent_id),
                get_int(f.cols, 0, u16_max()),
                get_int(f.rows, 0, u16_max()),
            ) {
                (Some(agent_id), Some(cols), Some(rows)) => Some(
                    ClientModel::ResizeTerminal { agent_id, cols: cols as u16, rows: rows as u16 },
                ),
                _ => None,
            }
        } else if t == "list_agents"@ {
            Some(ClientModel::ListAgents)
        } else if t == "get_agent_status"@ {
            match get_id(f.agent_id) {
                Some(agent_id) => Some(ClientModel::GetAgentStatus { agent_id }),
                None => None,
            }
        } else {
            None
        },
    }
}

fn find_member(ms: &Vec<(String, Value)>, key: &str) -> (r: Option<usize>)
    ensures
        match lookup(members_view(ms@), key@) {
            None => r is None,
            Some(v) => r is Some && r.unwrap() < ms.len() && ms@[r.unwrap() as int].1@ == v,
        },
{
    let k = key.to_owned();
    let mut i: usize = 0;
    while i < ms.len()
        invariant
            i <= ms.len(),
            k@ == key@,
            lookup(members_view(ms@), key@) == lookup_from(members_view(ms@), key@, i as int),
        decreases ms.len() - i,
    {
        if ms[i].0 == k {
            return Some(i);
        }
        i += 1;
    }
    None
}

fn text_field(ms: &Vec<(String, Value)>, key: &str) -> (r: Option<String>)
    ensures
        crate::protocol::opt_view(r) == get_text(lookup(members_view(ms@), key@)),
{
    match find_member(ms, key) {
        None => None,
        Some(i) => match &ms[i].1 {
            Value::Scalar(Scalar::Str(t)) => Some(t.clone()),
            _ => None,
        },
    }
}

fn int_field(ms: &Vec<(String, Value)>, key: &str, lo: i128, hi: i128) -> (r: Option<i128>)
    ensures
        match get_int(lookup(members_view(ms@), key@), lo as int, hi as int) {
            None => r is None,
            Some(n) => r == Some(n as i128),
        },
{
    match find_member(ms, key) {
        None => None,
        Some(i) => match &ms[i].1 {
            Value::Scalar(Scalar::Int(n)) => if lo <= *n && *n <= hi {
                Some(*n)
            } else {
                None
            },
            _ => None,
        },
    }
}

fn opt_text_field(ms: &Vec<(String, Value)>, key: &str) -> (r: Option<Option<String>>)
    ensures
        match get_opt_text(lookup(members_view(ms@), key@)) {
            None => r is None,
            Some(o) => r is Some && crate::protocol::opt_view(r.unwrap()) == o,
        },
{
    match find_member(ms, key) {
        None => Some(None),
        Some(i) => match &ms[i].1 {
            Value::Scalar(Scalar::Null) => Some(None),
            Value::Scalar(Scalar::Str(t)) => Some(Some(t.clone())),
            _ => None,
        },
    }
}

fn opt_int_field(ms: &Vec<(String, Value)>, key: &str, lo: i128, hi: i128) -> (r: Option<Option<i128>>)
    ensures
        match get_opt_int(lookup(members_view(ms@), key@), lo as int, hi as int) {
            None => r is None,
            Some(None) => r == Some(None::<i128>),
            Some(Some(n)) => r == Some(Some(n as i128)),
        },
{
    match find_member(ms, key) {
        None => Some(None),
        Some(i) => match &ms[i].1 {
            Value::Scalar(Scalar::Null) => Some(None),
            Value::Scalar(Scalar::Int(n)) => if lo <= *n && *n <= hi {
                Some(Some(*n))
            } else {
                None
            },
            _ => None,
        },
    }
}

fn id_field(ms: &Vec<(String, Value)>, key: &str) -> (r: Option<AgentId>)
    ensures
        r == get_id(lookup(members_view(ms@), key@)),
{
    match text_field(ms, key) {
        Some(t) => parse_uuid(t.as_str()),
        None => None,
    }
}

fn opt_id_field(ms: &Vec<(String, Value)>, key: &str) -> (r: Option<Option<AgentId>>)
    ensures
        r == get_opt_id(lookup(members_view(ms@), key@)),
{
    match opt_text_field(ms, key) {
        Some(Some(t)) => match parse_uuid(t.as_str()) {
            Some(id) => Some(Some(id)),
            None => None,
        },
        Some(None) => Some(None),
        None => None,
    }
}

fn same_text(a: &String, b: &str) -> (r: bool)
    ensures
        r == (a@ == b@),
{
    *a == b.to_owned()
}

/// The client message that the members describe, if any.
pub fn client_from_members(ms: &Vec<(String, Value)>) -> (r: Option<ClientMessage>)
    ensures
        match client_of(members_view(ms@)) {
            None => r is None,
            Some(m) => r is Some && r.unwrap()@ == m,
        },
{
    let t = match text_field(ms, "type") {
        Some(t) => t,
        None => {
            return None;
        },
    };
    if same_text(&t, "ping") {
        match int_field(ms, "seq", 0, u64::MAX as i128) {
            Some(n) => Some(ClientMessage::Ping { seq: n as u64 }),
            None => None,
        }
    } else if same_text(&t, "authenticate") {
        match text_field(ms, "token") {
            Some(token) => Some(ClientMessage::Authenticate { token }),
            None => None,
        }
    } else if same_text(&t, "spawn_agent") {
        match (
            text_field(ms, "project_path"),
            opt_text_field(ms, "preset"),
            opt_int_field(ms, "cols", 0, u16::MAX as i128),
            opt_int_field(ms, "rows", 0, u16::MAX as i128),
        ) {
            (Some(project_path), Some(preset), Some(cols), Some(rows)) => {
                let cols = match cols {
                    Some(c) => Some(c as u16),
                    None => None,
                };
                let rows = match rows {
                    Some(c) => Some(c as u16),
                    None => None,
                };
                Some(ClientMessage::SpawnAgent { project_path, preset, cols, rows })
            },
            _ => None,
        }
    } else if same_text(&t, "agent_input") {
        match (id_field(ms, "agent_id"), text_field(ms, "input")) {
            (Some(agent_id), Some(input)) => Some(ClientMessage::AgentInput { agent_id, input }),
            _ => None,
        }
    } else if same_text(&t, "kill_agent") {
        match (id_field(ms, "agent_id"), opt_int_field(ms, "signal", i32::MIN as i128, i32::MAX as i128)) {
            (Some(agent_id), Some(signal)) => {
                let signal = match signal {
                    Some(x) => Some(x as i32),
                    None => None,
                };
                Some(ClientMessage::KillAgent { agent_id, signal })
            },
            _ => None,
        }
    } else if same_text(&t, "resize_terminal") {
        match (
            id_field(ms, "agent_id"),
            int_field(ms, "cols", 0, u16::MAX as i128),
            int_field(ms, "rows", 0, u16::MAX as i128),
        ) {
            (Some(agent_id), Some(cols), Some(rows)) => Some(
                ClientMessage::ResizeTerminal { agent_id, cols: cols as u16, rows: rows as u16 },
            ),
            _ => None,
        }
    } else if same_text(&t, "list_agents") {
        Some(ClientMessage::ListAgents)
    } else if same_text(&t, "get_agent_status") {
        match id_field(ms, "agent_id") {
            Some(agent_id) => Some(ClientMessage::GetAgentStatus { agent_id }),
            None => None,
        }
    } else {
        None
    }
}


pub open spec fn state_of(t: Seq<char>) -> Option<AgentState> {
    if t == "starting"@ {
        Some(AgentState::Starting)
    } else if t == "running"@ {
        Some(AgentState::Running)
    } else if t == "stopping"@ {
        Some(AgentState::Stopping)
    } else if t == "stopped"@ {
        Some(AgentState::Stopped)
    } else {
        None
    }
}

pub open spec fn code_of(t: Seq<char>) -> Option<ErrorCode> {
    if t == "invalid_message"@ {
        Some(ErrorCode::InvalidMessage)
    } else if t == "agent_not_found"@ {
        Some(ErrorCode::AgentNotFound)
    } else if t == "spawn_failed"@ {
        Some(ErrorCode::SpawnFailed)
    } else if t == "auth_required"@ {
        Some(ErrorCode::AuthRequired)
    } else if t == "auth_failed"@ {
        Some(ErrorCode::AuthFailed)
    } else if t == "rate_limited"@ {
        Some(ErrorCode::RateLimited)
    } else if t == "internal_error"@ {
        Some(ErrorCode::InternalError)
    } else if t == "invalid_path"@ {
        Some(ErrorCode::InvalidPath)
    } else if t == "unsupported_version"@ {
        Some(ErrorCode::UnsupportedVersion)
    } else {
        None
    }
}

pub open spec fn get_state(v: Option<ValueModel>) -> Option<AgentState> {
    match get_text(v) {
        Some(t) => state_of(t),
        None => None,
    }
}

/// An optional error code: absent or null is `Some(None)`.
pub open spec fn get_opt_code(v: Option<ValueModel>) -> Option<Option<ErrorCode>> {
    match get_opt_text(v) {
        Some(Some(t)) => match code_of(t) {
            Some(c) => Some(Some(c)),
            None => None,
        },
        Some(None) => Some(None),
        None => None,
    }
}

/// A flat object read as members.
pub open spec fn row_as_members(r: Seq<(Seq<char>, ScalarModel)>) -> Members {
    r.map_values(|p: (Seq<char>, ScalarModel)| (p.0, ValueModel::Scalar(p.1)))
}

pub open spec fn info_of(r: Seq<(Seq<char>, ScalarModel)>) -> Option<InfoModel> {
    let ms = row_as_members(r);
    match (
        get_id(lookup(ms, "agent_id"@)),
        get_text(lookup(ms, "project_path"@)),
        get_state(lookup(ms, "status"@)),
        get_int(lookup(ms, "cols"@), 0, u16_max()),
        get_int(lookup(ms, "rows"@), 0, u16_max()),
    ) {
        (Some(agent_id), Some(project_path), Some(status), Some(cols), Some(rows)) => Some(
            InfoModel { agent_id, project_path, status, cols: cols as u16, rows: rows as u16 },
        ),
        _ => None,
    }
}

pub open spec fn infos_of(rs: Seq<Seq<(Seq<char>, ScalarModel)>>) -> Option<Seq<InfoModel>>
    decreases rs.len(),
{
    if rs.len() == 0 {
        Some(seq![])
    } else {
        match (infos_of(rs.drop_last()), info_of(rs.last())) {
            (Some(a), Some(b)) => Some(a.push(b)),
            _ => None,
        }
    }
}

/// The server message that a document's members describe, if any.
pub open spec fn server_of(ms: Members) -> Option<ServerModel> {
    match get_text(lookup(ms, "type"@)) {
        None => None,
        Some(t) => if t == "welcome"@ {
            match (get_int(lookup(ms, "version"@), 0, u32::MAX as int), get_opt_text(lookup(ms, "server_id"@))) {
                (Some(version), Some(server_id)) => Some(ServerModel::Welcome { version: version as u32, server_id }),
                _ => None,
            }
        } else if t == "auth_success"@ {
            Some(ServerModel::AuthSuccess)
        } else if t == "pong"@ {
            match get_int(lookup(ms, "seq"@), 0, u64::MAX as int) {
                Some(n) => Some(ServerModel::Pong { seq: n as u64 }),
                None => None,
            }
        } else if t == "agent_spawned"@ {
            match (
                get_id(lookup(ms, "agent_id"@)),
                get_text(lookup(ms, "project_path"@)),
                get_int(lookup(ms, "cols"@), 0, u16_max()),
                get_int(lookup(ms, "rows"@), 0, u16_max()),
            ) {
                (Some(agent_id), Some(project_path), Some(cols), Some(rows)) => Some(
                    ServerModel::AgentSpawned { agent_id, project_path, cols: cols as u16, rows: rows as u16 },
                ),
                _ => None,
            }
        } else if t == "agent_output"@ {
            match (get_id(lookup(ms, "agent_id"@)), get_text(lookup(ms, "data"@))) {
                (Some(agent_id), Some(data)) => Some(ServerModel::AgentOutput { agent_id, data }),
                _ => None,
            }
        } else if t == "agent_exited"@ {
            match (
                get_id(lookup(ms, "agent_id"@)),
                get_opt_int(lookup(ms, "exit_code"@), i32::MIN as int, i32::MAX as int),
                get_opt_text(lookup(ms, "reason"@)),
            ) {
                (Some(agent_id), Some(exit_code), Some(reason)) => Some(
                    ServerModel::AgentExited { agent_id, exit_code: as_i32(exit_code), reason },
                ),
                _ => None,
            }
        } else if t == "agent_resized"@ {
            match (
                get_id(lookup(ms, "agent_id"@)),
                get_int(lookup(ms, "cols"@), 0, u16_max()),
                get_int(lookup(ms, "rows"@), 0, u16_max()),
            ) {
                (Some(agent_id), Some(cols), Some(rows)) => Some(
                    ServerModel::AgentResized { agent_id, cols: cols as u16, rows: rows as u16 },
                ),
                _ => None,
            }
        } else if t == "agent_list"@ {
            match lookup(ms, "agents"@) {
                Some(ValueModel::Rows(rs)) => match infos_of(rs) {
                    Some(agents) => Some(ServerModel::AgentList { agents }),
                    None => None,
                },
                _ => None,
            }
        } else if t == "agent_status"@ {
            match (
                get_id(lookup(ms, "agent_id"@)),
                get_state(lookup(ms, "status"@)),
                get_text(lookup(ms, "project_path"@)),
                get_int(lookup(ms, "cols"@), 0, u16_max()),
                get_int(lookup(ms, "rows"@), 0, u16_max()),
            ) {
                (Some(agent_id), Some(status), Some(project_path), Some(cols), Some(rows)) => Some(
                    ServerModel::AgentStatus {
                        agent_id,
                        status,
                        project_path,
                        cols: cols as u16,
                        rows: rows as u16,
                    },
                ),
                _ => None,
            }
        } else if t == "error"@ {
            match (
                get_text(lookup(ms, "message"@)),
                get_opt_code(lookup(ms, "code"@)),
                get_opt_id(lookup(ms, "agent_id"@)),
            ) {
                (Some(message), Some(code), Some(agent_id)) => Some(ServerModel::Error { message, code, agent_id }),
                _ => None,
            }
        } else {
            None
        },
    }
}

fn state_field(ms: &Vec<(String, Value)>, key: &str) -> (r: Option<AgentState>)
    ensures
        r == get_state(lookup(members_view(ms@), key@)),
{
    match text_field(ms, key) {
        None => None,
        Some(t) => if same_text(&t, "starting") {
            Some(AgentState::Starting)
        } else if same_text(&t, "running") {
            Some(AgentState::Running)
        } else if same_text(&t, "stopping") {
            Some(AgentState::Stopping)
        } else if same_text(&t, "stopped") {
            Some(AgentState::Stopped)
        } else {
            None
        },
    }
}

fn code_from_text(t: &String) -> (r: Option<ErrorCode>)
    ensures
        r == code_of(t@),
{
    if same_text(t, "invalid_message") {
        Some(ErrorCode::InvalidMessage)
    } else if same_text(t, "agent_not_found") {
        Some(ErrorCode::AgentNotFound)
    } else if same_text(t, "spawn_failed") {
        Some(ErrorCode::SpawnFailed)
    } else if same_text(t, "auth_required") {
        Some(ErrorCode::AuthRequired)
    } else if same_text(t, "auth_failed") {
        Some(ErrorCode::AuthFailed)
    } else if same_text(t, "rate_limited") {
        Some(ErrorCode::RateLimited)
    } else if same_text(t, "internal_error") {
        Some(ErrorCode::InternalError)
    } else if same_text(t, "invalid_path") {
        Some(ErrorCode::InvalidPath)
    } else if same_text(t, "unsupported_version") {
        Some(ErrorCode::UnsupportedVersion)
    } else {
        None
    }
}

fn opt_code_field(ms: &Vec<(String, Value)>, key: &str) -> (r: Option<Option<ErrorCode>>)
    ensures
        r == get_opt_code(lookup(members_view(ms@), key@)),
{
    match opt_text_field(ms, key) {
        Some(Some(t)) => match code_from_text(&t) {
            Some(c) => Some(Some(c)),
            None => None,
        },
        Some(None) => Some(None),
        None => None,
    }
}

fn copy_scalar(v: &Scalar) -> (r: Scalar)
    ensures
        r@ == v@,
{
    match v {
        Scalar::Null => Scalar::Null,
        Scalar::Bool(b) => Scalar::Bool(*b),
        Scalar::Int(n) => Scalar::Int(*n),
        Scalar::Str(t) => Scalar::Str(t.clone()),
    }
}

fn row_to_members(r: &crate::json::Row) -> (m: Vec<(String, Value)>)
    ensures
        members_view(m@) == row_as_members(crate::json::row_view(r@)),
{
    let mut m: Vec<(String, Value)> = Vec::new();
    let mut i: usize = 0;
    while i < r.len()
        invariant
            i <= r.len(),
            members_view(m@) == row_as_members(crate::json::row_view(r@).take(i as int)),
        decreases r.len() - i,
    {
        let ghost before = members_view(m@);
        m.push((r[i].0.clone(), Value::Scalar(copy_scalar(&r[i].1))));
        assert(members_view(m@) =~= before.push((r@[i as int].0@, ValueModel::Scalar(r@[i as int].1@))));
        assert(row_as_members(crate::json::row_view(r@).take(i as int + 1)) =~= row_as_members(
            crate::json::row_view(r@).take(i as int),
        ).push((r@[i as int].0@, ValueModel::Scalar(r@[i as int].1@))));
        assert(members_view(m@) =~= row_as_members(crate::json::row_view(r@).take(i as int + 1)));
        i += 1;
    }
    assert(crate::json::row_view(r@).take(i as int) =~= crate::json::row_view(r@));
    m
}

fn info_from_row(r: &crate::json::Row) -> (a: Option<AgentInfo>)
    ensures
        match info_of(crate::json::row_view(r@)) {
            None => a is None,
            Some(i) => a is Some && a.unwrap()@ == i,
        },
{
    let ms = row_to_members(r);
    match (
        id_field(&ms, "agent_id"),
        text_field(&ms, "project_path"),
        state_field(&ms, "status"),
        int_field(&ms, "cols", 0, u16::MAX as i128),
        int_field(&ms, "rows", 0, u16::MAX as i128),
    ) {
        (Some(agent_id), Some(project_path), Some(status), Some(cols), Some(rows)) => Some(
            AgentInfo { agent_id, project_path, status, cols: cols as u16, rows: rows as u16 },
        ),
        _ => None,
    }
}

fn infos_from_rows(rs: &Vec<crate::json::Row>) -> (r: Option<Vec<AgentInfo>>)
    ensures
        match infos_of(crate::json::rows_view(rs@)) {
            None => r is None,
            Some(v) => r is Some && infos_view(r.unwrap()@) == v,
        },
{
    let mut out: Vec<AgentInfo> = Vec::new();
    let mut i: usize = 0;
    assert(crate::json::rows_view(rs@).take(0) =~= seq![]);
    assert(infos_view(out@) =~= seq![]);
    while i < rs.len()
        invariant
            i <= rs.len(),
            infos_of(crate::json::rows_view(rs@).take(i as int)) == Some(infos_view(out@)),
        decreases rs.len() - i,
    {
        let ghost pre = crate::json::rows_view(rs@).take(i as int + 1);
        assert(pre.drop_last() =~= crate::json::rows_view(rs@).take(i as int));
        match info_from_row(&rs[i]) {
            Some(a) => {
                let ghost before = infos_view(out@);
                out.push(a);
                assert(infos_view(out@) =~= before.push(a@));
            },
            None => {
                proof {
                    lemma_infos_of_prefix_fails(crate::json::rows_view(rs@), i as int + 1);
                }
                return None;
            },
        }
        i += 1;
    }
    assert(crate::json::rows_view(rs@).take(i as int) =~= crate::json::rows_view(rs@));
    Some(out)
}

/// Once a prefix of the rows fails to read, the whole list fails.
proof fn lemma_infos_of_prefix_fails(rs: Seq<Seq<(Seq<char>, ScalarModel)>>, n: int)
    requires
        0 <= n <= rs.len(),
        infos_of(rs.take(n)) is None,
    ensures
        infos_of(rs) is None,
    decreases rs.len() - n,
{
    if n < rs.len() {
        assert(rs.take(n + 1).drop_last() =~= rs.take(n));
        lemma_infos_of_prefix_fails(rs, n + 1);
    } else {
        assert(rs.take(n) =~= rs);
    }
}

/// The server message that the members describe, if any.
pub fn server_from_members(ms: &Vec<(String, Value)>) -> (r: Option<ServerMessage>)
    ensures
        match server_of(members_view(ms@)) {
            None => r is None,
            Some(m) => r is Some && r.unwrap()@ == m,
        },
{
    let t = match text_field(ms, "type") {
        Some(t) => t,
        None => {
            return None;
        },
    };
    if same_text(&t, "welcome") {
        match (int_field(ms, "version", 0, u32::MAX as i128), opt_text_field(ms, "server_id")) {
            (Some(version), Some(server_id)) => Some(ServerMessage::Welcome { version: version as u32, server_id }),
            _ => None,
        }
    } else if same_text(&t, "auth_success") {
        Some(ServerMessage::AuthSuccess)
    } else if same_text(&t, "pong") {
        match int_field(ms, "seq", 0, u64::MAX as i128) {
            Some(n) => Some(ServerMessage::Pong { seq: n as u64 }),
            None => None,
        }
    } else if same_text(&t, "agent_spawned") {
        match (
            id_field(ms, "agent_id"),
            text_field(ms, "project_path"),
            int_field(ms, "cols", 0, u16::MAX as i128),
            int_field(ms, "rows", 0, u16::MAX as i128),
        ) {
            (Some(agent_id), Some(project_path), Some(cols), Some(rows)) => Some(
                ServerMessage::AgentSpawned { agent_id, project_path, cols: cols as u16, rows: rows as u16 },
            ),
            _ => None,
        }
    } else if same_text(&t, "agent_output") {
        match (id_field(ms, "agent_id"), text_field(ms, "data")) {
            (Some(agent_id), Some(data)) => Some(ServerMessage::AgentOutput { agent_id, data }),
            _ => None,
        }
    } else if same_text(&t, "agent_exited") {
        match (
            id_field(ms, "agent_id"),
            opt_int_field(ms, "exit_code", i32::MIN as i128, i32::MAX as i128),
            opt_text_field(ms, "reason"),
        ) {
            (Some(agent_id), Some(exit_code), Some(reason)) => {
                let exit_code = match exit_code {
                    Some(x) => Some(x as i32),
                    None => None,
                };
                Some(ServerMessage::AgentExited { agent_id, exit_code, reason })
            },
            _ => None,
        }
    } else if same_text(&t, "agent_resized") {
        match (
            id_field(ms, "agent_id"),
            int_field(ms, "cols", 0, u16::MAX as i128),
            int_field(ms, "rows", 0, u16::MAX as i128),
        ) {
            (Some(agent_id), Some(cols), Some(rows)) => Some(
                ServerMessage::AgentResized { agent_id, cols: cols as u16, rows: rows as u16 },
            ),
            _ => None,
        }
    } else if same_text(&t, "agent_list") {
        match find_member(ms, "agents") {
            Some(i) => match &ms[i].1 {
                Value::Rows(rs) => match infos_from_rows(rs) {
                    Some(agents) => Some(ServerMessage::AgentList { agents }),
                    None => None,
                },
                _ => None,
            },
            None => None,
        }
    } else if same_text(&t, "agent_status") {
        match (
            id_field(ms, "agent_id"),
            state_field(ms, "status"),
            text_field(ms, "project_path"),
            int_field(ms, "cols", 0, u16::MAX as i128),
            int_field(ms, "rows", 0, u16::MAX as i128),
        ) {
            (Some(agent_id), Some(status), Some(project_path), Some(cols), Some(rows)) => Some(
                ServerMessage::AgentStatus {
                    agent_id,
                    status,
                    project_path,
                    cols: cols as u16,
                    rows: rows as u16,
                },
            ),
            _ => None,
        }
    } else if same_text(&t, "error") {
        match (text_field(ms, "message"), opt_code_field(ms, "code"), opt_id_field(ms, "agent_id")) {
            (Some(message), Some(code), Some(agent_id)) => Some(ServerMessage::Error { message, code, agent_id }),
            _ => None,
        }
    } else {
        None
    }
}


// ---------------------------------------------------------------------------
// Documents
// ---------------------------------------------------------------------------

/// The version an envelope's members state; a missing version reads as the
/// current one.
pub open spec fn version_of(ms: Members) -> Option<u32> {
    match get_opt_int(lookup(ms, "version"@), 0, u32::MAX as int) {
        Some(Some(v)) => Some(v as u32),
        Some(None) => Some(PROTOCOL_VERSION),
        None => None,
    }
}

/// The client message that a text holds, if any.
pub open spec fn client_of_text(text: Seq<char>) -> Option<ClientModel> {
    match parse_document(text) {
        Some(ms) => client_of(ms),
        None => None,
    }
}

/// The members of a client envelope: the version, then the message's.
pub open spec fn client_envelope_members(version: u32, m: ClientModel) -> Members {
    seq![int_member("version"@, version as int)] + client_members(m)
}

pub open spec fn server_envelope_members(version: u32, m: ServerModel) -> Members {
    seq![int_member("version"@, version as int)] + server_members(m)
}

/// The server envelope that a document's members describe: here the
/// version is required.
pub open spec fn server_envelope_of(ms: Members) -> Option<(u32, ServerModel)> {
    match (get_int(lookup(ms, "version"@), 0, u32::MAX as int), server_of(ms)) {
        (Some(v), Some(m)) => Some((v as u32, m)),
        _ => None,
    }
}

pub open spec fn is_serialization_error<T>(r: Result<T, ProtocolError>) -> bool {
    r matches Err(ProtocolError::SerializationError(_))
}

pub open spec fn is_invalid_message<T>(r: Result<T, ProtocolError>) -> bool {
    r matches Err(ProtocolError::InvalidMessage(_))
}

fn malformed<T>() -> (r: Result<T, ProtocolError>)
    ensures
        is_serialization_error(r),
{
    Err(ProtocolError::SerializationError("the text is not a JSON object of the protocol's shape".to_owned()))
}

fn unknown<T>() -> (r: Result<T, ProtocolError>)
    ensures
        is_invalid_message(r),
{
    Err(ProtocolError::InvalidMessage("unknown message type, or a field missing or of the wrong kind".to_owned()))
}

fn version_field(ms: &Vec<(String, Value)>) -> (r: Option<u32>)
    ensures
        r == version_of(members_view(ms@)),
{
    match opt_int_field(ms, "version", 0, u32::MAX as i128) {
        Some(Some(v)) => Some(v as u32),
        Some(None) => Some(PROTOCOL_VERSION),
        None => None,
    }
}

impl ClientMessage {
    /// The JSON text of the message.
    pub fn to_json(&self) -> (r: String)
        ensures
            r@ == object_text(client_members(self@)),
            client_ids_read_back(self@),
    {
        write_object(&client_to_members(self))
    }

    /// Reads a message from JSON text; bounds are not checked here.
    pub fn from_json(text: &str) -> (r: Result<ClientMessage, ProtocolError>)
        ensures
            match parse_document(text@) {
                None => is_serialization_error(r),
                Some(ms) => match client_of(ms) {
                    Some(m) => r is Ok && r.unwrap()@ == m,
                    None => is_invalid_message(r),
                },
            },
    {
        match parse_object(text) {
            None => malformed(),
            Some(ms) => match client_from_members(&ms) {
                Some(m) => Ok(m),
                None => unknown(),
            },
        }
    }
}

impl ServerMessage {
    /// The JSON text of the message, as sent to clients.
    pub fn to_json(&self) -> (r: String)
        ensures
            r@ == object_text(server_members(self@)),
    {
        write_object(&server_to_members(self))
    }

    /// Reads a message from JSON text.
    pub fn from_json(text: &str) -> (r: Result<ServerMessage, ProtocolError>)
        ensures
            match parse_document(text@) {
                None => is_serialization_error(r),
                Some(ms) => match server_of(ms) {
                    Some(m) => r is Ok && r.unwrap()@ == m,
                    None => is_invalid_message(r),
                },
            },
    {
        match parse_object(text) {
            None => malformed(),
            Some(ms) => match server_from_members(&ms) {
                Some(m) => Ok(m),
                None => unknown(),
            },
        }
    }
}

impl ClientEnvelope {
    /// The JSON text: the version, then the message's members.
    pub fn to_json(&self) -> (r: String)
        ensures
            r@ == object_text(client_envelope_members(self.version, self.message@)),
            client_ids_read_back(self.message@),
    {
        let mut ms: Vec<(String, Value)> = Vec::new();
        ms.push(int_entry("version", self.version as i128));
        let mut rest = client_to_members(&self.message);
        ms.append(&mut rest);
        assert(members_view(ms@) =~= client_envelope_members(self.version, self.message@));
        write_object(&ms)
    }

    /// Reads an envelope from JSON text and checks it: the version must be
    /// at least `MIN_PROTOCOL_VERSION`, and the message within its bounds.
    pub fn from_json(text: &str) -> (r: Result<ClientEnvelope, ProtocolError>)
        ensures
            verdict_matches(r, envelope_verdict(text@)),
    {
        let ms = match parse_object(text) {
            None => {
                return malformed();
            },
            Some(ms) => ms,
        };
        let version = match version_field(&ms) {
            Some(v) => v,
            None => {
                return unknown();
            },
        };
        let message = match client_from_members(&ms) {
            Some(m) => m,
            None => {
                return unknown();
            },
        };
        let envelope = ClientEnvelope { version, message };
        match envelope.validate() {
            Ok(()) => Ok(envelope),
            Err(e) => Err(e),
        }
    }
}

/// What reading a client envelope decides.
pub enum EnvelopeVerdict {
    /// Not a JSON object of the accepted shape.
    Malformed,
    /// No known message, or a field missing or of the wrong kind.
    Unknown,
    /// The version is older than `MIN_PROTOCOL_VERSION`.
    Unsupported(u32),
    /// A bound is broken; the text of the first one.
    OutOfBounds(Seq<char>),
    /// The version and the message.
    Accepted(u32, ClientModel),
}

pub open spec fn envelope_verdict(text: Seq<char>) -> EnvelopeVerdict {
    match parse_document(text) {
        None => EnvelopeVerdict::Malformed,
        Some(ms) => match (version_of(ms), client_of(ms)) {
            (Some(v), Some(m)) => if v < MIN_PROTOCOL_VERSION {
                EnvelopeVerdict::Unsupported(v)
            } else {
                match validation_failure(m) {
                    Some(t) => EnvelopeVerdict::OutOfBounds(t),
                    None => EnvelopeVerdict::Accepted(v, m),
                }
            },
            _ => EnvelopeVerdict::Unknown,
        },
    }
}

/// `r` is what the verdict calls for.
pub open spec fn verdict_matches(r: Result<ClientEnvelope, ProtocolError>, d: EnvelopeVerdict) -> bool {
    match d {
        EnvelopeVerdict::Malformed => is_serialization_error(r),
        EnvelopeVerdict::Unknown => is_invalid_message(r),
        EnvelopeVerdict::Unsupported(v) => r == Err::<ClientEnvelope, ProtocolError>(
            ProtocolError::UnsupportedVersion(v),
        ),
        EnvelopeVerdict::OutOfBounds(t) => match r {
            Err(ProtocolError::ValidationError(e)) => e@ == t,
            _ => false,
        },
        EnvelopeVerdict::Accepted(v, m) => r is Ok && r.unwrap().version == v && r.unwrap().message@ == m,
    }
}

pub proof fn lemma_lookup_shift(a: Members, b: Members, key: Seq<char>, j: int)
    requires
        0 <= j,
        forall|x: int| 0 <= x < a.len() ==> (#[trigger] a[x]).0 != key,
    ensures
        lookup_from(a + b, key, j) == (if j < a.len() {
            lookup_from(b, key, 0)
        } else {
            lookup_from(b, key, j - a.len())
        }),
    decreases (a + b).len() - j,
{
    if j < (a + b).len() {
        lemma_lookup_shift(a, b, key, j + 1);
        if j >= a.len() {
            assert((a + b)[j] == b[j - a.len()]);
        }
    }
}

pub proof fn lemma_lookup_cons(a: (Seq<char>, ValueModel), rest: Members, key: Seq<char>)
    ensures
        lookup(seq![a] + rest, key) == (if a.0 == key {
            Some(a.1)
        } else {
            lookup(rest, key)
        }),
{
    if a.0 != key {
        lemma_lookup_shift(seq![a], rest, key, 0);
    } else {
        assert((seq![a] + rest)[0] == a);
    }
}

/// The member names differ from one another.
pub proof fn lemma_keys_differ()
    ensures
        "type"@ != "project_path"@,
        "type"@ != "preset"@,
        "type"@ != "cols"@,
        "type"@ != "rows"@,
        "project_path"@ != "preset"@,
        "project_path"@ != "cols"@,
        "project_path"@ != "rows"@,
        "preset"@ != "cols"@,
        "preset"@ != "rows"@,
        "cols"@ != "rows"@,
{
    reveal_strlit("type");
    reveal_strlit("project_path");
    reveal_strlit("preset");
    reveal_strlit("cols");
    reveal_strlit("rows");
    assert("type"@[0] != "project_path"@[0]);
    assert("type"@[0] != "preset"@[0]);
    assert("type"@[0] != "cols"@[0]);
    assert("type"@[0] != "rows"@[0]);
    assert("project_path"@[2] != "preset"@[2]);
    assert("project_path"@[0] != "cols"@[0]);
    assert("project_path"@[0] != "rows"@[0]);
    assert("preset"@[0] != "cols"@[0]);
    assert("preset"@[0] != "rows"@[0]);
    assert("cols"@[0] != "rows"@[0]);
}

proof fn lemma_spawn_lookups(base: Members, p: Members, c: Members, w: Members)
    requires
        base.len() == 2,
        base[0].0 == "type"@,
        base[1].0 == "project_path"@,
        p.len() <= 1,
        c.len() <= 1,
        w.len() <= 1,
        p.len() == 1 ==> p[0].0 == "preset"@,
        c.len() == 1 ==> c[0].0 == "cols"@,
        w.len() == 1 ==> w[0].0 == "rows"@,
    ensures
        lookup(base + p + c + w, "type"@) == Some(base[0].1),
        lookup(base + p + c + w, "project_path"@) == Some(base[1].1),
        lookup(base + p + c + w, "preset"@) == (if p.len() == 1 {
            Some(p[0].1)
        } else {
            None::<ValueModel>
        }),
        lookup(base + p + c + w, "cols"@) == (if c.len() == 1 {
            Some(c[0].1)
        } else {
            None::<ValueModel>
        }),
        lookup(base + p + c + w, "rows"@) == (if w.len() == 1 {
            Some(w[0].1)
        } else {
            None::<ValueModel>
        }),
{
    lemma_keys_differ();
    reveal_with_fuel(lookup_from, 6);
    let ms = base + p + c + w;
    if p.len() == 1 {
        if c.len() == 1 {
            if w.len() == 1 {
                assert(ms =~= seq![base[0], base[1], p[0], c[0], w[0]]);
            } else {
                assert(ms =~= seq![base[0], base[1], p[0], c[0]]);
            }
        } else {
            if w.len() == 1 {
                assert(ms =~= seq![base[0], base[1], p[0], w[0]]);
            } else {
                assert(ms =~= seq![base[0], base[1], p[0]]);
            }
        }
    } else {
        if c.len() == 1 {
            if w.len() == 1 {
                assert(ms =~= seq![base[0], base[1], c[0], w[0]]);
            } else {
                assert(ms =~= seq![base[0], base[1], c[0]]);
            }
        } else {
            if w.len() == 1 {
                assert(ms =~= seq![base[0], base[1], w[0]]);
            } else {
                assert(ms =~= seq![base[0], base[1]]);
            }
        }
    }
}

proof fn lemma_spawn_schema(project_path: Seq<char>, preset: Option<Seq<char>>, cols: Option<u16>, rows: Option<u16>)
    ensures
        client_of(client_members(ClientModel::SpawnAgent { project_path, preset, cols, rows })) == Some(
            ClientModel::SpawnAgent { project_path, preset, cols, rows },
        ),
        crate::roundtrip::members_ok(client_members(ClientModel::SpawnAgent { project_path, preset, cols, rows })),
{
    reveal_strlit("type");
    reveal_strlit("ping");
    reveal_strlit("authenticate");
    reveal_strlit("spawn_agent");
    reveal_strlit("project_path");
    reveal_strlit("preset");
    reveal_strlit("cols");
    reveal_strlit("rows");
    let m = ClientModel::SpawnAgent { project_path, preset, cols, rows };
    let ms = client_members(m);
            let base = seq![type_member("spawn_agent"@), text_member("project_path"@, project_path)];
    let p = opt_text_member("preset"@, preset);
    let c = opt_int_member("cols"@, opt_u16_int(cols));
    let w = opt_int_member("rows"@, opt_u16_int(rows));
    assert(ms == base + p + c + w);
    lemma_spawn_lookups(base, p, c, w);
    let f = client_fields(ms);
    assert(get_text(f.ty) == Some("spawn_agent"@));
    assert(get_text(f.project_path) == Some(project_path));
    assert(get_opt_text(f.preset) == Some(preset));
    assert(get_opt_int(f.cols, 0, u16_max()) == Some(opt_u16_int(cols)));
    assert(get_opt_int(f.rows, 0, u16_max()) == Some(opt_u16_int(rows)));
    assert("spawn_agent"@[0] != "ping"@[0]);
    assert("spawn_agent"@[0] != "authenticate"@[0]);
    assert(as_u16(opt_u16_int(cols)) == cols);
    assert(as_u16(opt_u16_int(rows)) == rows);
    assert(client_from_fields(f) == Some(m));
    assert(client_of(ms) == client_from_fields(client_fields(ms)));
    assert(client_of(ms) == Some(m));
    assert(as_u16(opt_u16_int(cols)) == cols);
    assert(as_u16(opt_u16_int(rows)) == rows);
    assert forall|k: int| 0 <= k < ms.len() implies crate::roundtrip::value_ok(#[trigger] ms[k].1) by {
        if k >= 2 + p.len() + c.len() {
            assert(ms[k] == w[k - 2 - p.len() - c.len()]);
        } else if k >= 2 + p.len() {
            assert(ms[k] == c[k - 2 - p.len()]);
        } else if k >= 2 {
            assert(ms[k] == p[k - 2]);
        }
    }
        
}

/// The members of a client message describe it, and the reader gives them
/// back as written.
pub proof fn lemma_client_schema(m: ClientModel)
    requires
        client_ids_read_back(m),
    ensures
        client_of(client_members(m)) == Some(m),
        crate::roundtrip::members_ok(client_members(m)),
{
    reveal_strlit("type");
    reveal_strlit("ping");
    reveal_strlit("seq");
    reveal_strlit("authenticate");
    reveal_strlit("token");
    reveal_strlit("spawn_agent");
    reveal_strlit("project_path");
    reveal_strlit("preset");
    reveal_strlit("cols");
    reveal_strlit("rows");
    reveal_strlit("agent_input");
    reveal_strlit("agent_id");
    reveal_strlit("input");
    reveal_strlit("kill_agent");
    reveal_strlit("signal");
    reveal_strlit("resize_terminal");
    reveal_strlit("list_agents");
    reveal_strlit("get_agent_status");
    reveal_with_fuel(lookup_from, 7);
    let ms = client_members(m);
    if m is SpawnAgent {
        lemma_spawn_schema(m->SpawnAgent_project_path, m->SpawnAgent_preset, m->SpawnAgent_cols, m->SpawnAgent_rows);
    } else if m is KillAgent {
        lemma_kill_schema(m->KillAgent_agent_id, m->KillAgent_signal);
    } else {
        lemma_other_schema(m);
    }
}

proof fn lemma_kill_schema(agent_id: AgentId, signal: Option<i32>)
    requires
        id_reads_back(agent_id),
    ensures
        client_of(client_members(ClientModel::KillAgent { agent_id, signal })) == Some(
            ClientModel::KillAgent { agent_id, signal },
        ),
        crate::roundtrip::members_ok(client_members(ClientModel::KillAgent { agent_id, signal })),
{
    reveal_strlit("type");
    reveal_strlit("ping");
    reveal_strlit("authenticate");
    reveal_strlit("spawn_agent");
    reveal_strlit("agent_input");
    reveal_strlit("kill_agent");
    reveal_strlit("agent_id");
    reveal_strlit("signal");
    reveal_with_fuel(lookup_from, 4);
    let m = ClientModel::KillAgent { agent_id, signal };
    let ms = client_members(m);
    assert("type"@[0] != "agent_id"@[0]);
    assert("type"@[0] != "signal"@[0]);
    assert("agent_id"@[0] != "signal"@[0]);
    assert("kill_agent"@[0] != "ping"@[0]);
    assert("kill_agent"@[0] != "authenticate"@[0]);
    assert("kill_agent"@[0] != "spawn_agent"@[0]);
    assert("kill_agent"@[0] != "agent_input"@[0]);
    if signal is Some {
        assert(ms =~= seq![
            type_member("kill_agent"@),
            id_member("agent_id"@, agent_id),
            int_member("signal"@, signal.unwrap() as int),
        ]);
        assert(lookup(ms, "signal"@) == Some(ValueModel::Scalar(ScalarModel::Int(signal.unwrap() as int))));
    } else {
        assert(ms =~= seq![type_member("kill_agent"@), id_member("agent_id"@, agent_id)]);
        assert(lookup(ms, "signal"@) is None);
    }
    assert(lookup(ms, "type"@) == Some(ValueModel::Scalar(ScalarModel::Str("kill_agent"@))));
    assert(lookup(ms, "agent_id"@) == Some(ValueModel::Scalar(ScalarModel::Str(uuid_text(agent_id)))));
    assert(get_id(client_fields(ms).agent_id) == Some(agent_id));
    assert(get_opt_int(client_fields(ms).signal, i32::MIN as int, i32::MAX as int) == Some(opt_i32_int(signal)));
    assert(as_i32(opt_i32_int(signal)) == signal);
    assert(client_from_fields(client_fields(ms)) == Some(m));
}

proof fn lemma_other_schema(m: ClientModel)
    requires
        client_ids_read_back(m),
        !(m is SpawnAgent),
        !(m is KillAgent),
    ensures
        client_of(client_members(m)) == Some(m),
        crate::roundtrip::members_ok(client_members(m)),
{
    reveal_strlit("type");
    reveal_strlit("ping");
    reveal_strlit("seq");
    reveal_strlit("authenticate");
    reveal_strlit("token");
    reveal_strlit("spawn_agent");
    reveal_strlit("project_path");
    reveal_strlit("preset");
    reveal_strlit("cols");
    reveal_strlit("rows");
    reveal_strlit("agent_input");
    reveal_strlit("agent_id");
    reveal_strlit("input");
    reveal_strlit("kill_agent");
    reveal_strlit("signal");
    reveal_strlit("resize_terminal");
    reveal_strlit("list_agents");
    reveal_strlit("get_agent_status");
    reveal_with_fuel(lookup_from, 7);
    assert("ping"@[0] != "authenticate"@[0]);
    assert("ping"@[0] != "spawn_agent"@[0]);
    assert("ping"@[0] != "agent_input"@[0]);
    assert("ping"@[0] != "kill_agent"@[0]);
    assert("ping"@[0] != "resize_terminal"@[0]);
    assert("ping"@[0] != "list_agents"@[0]);
    assert("ping"@[0] != "get_agent_status"@[0]);
    assert("authenticate"@[0] != "spawn_agent"@[0]);
    assert("authenticate"@[1] != "agent_input"@[1]);
    assert("authenticate"@[0] != "kill_agent"@[0]);
    assert("authenticate"@[0] != "resize_terminal"@[0]);
    assert("authenticate"@[0] != "list_agents"@[0]);
    assert("authenticate"@[0] != "get_agent_status"@[0]);
    assert("spawn_agent"@[0] != "agent_input"@[0]);
    assert("spawn_agent"@[0] != "kill_agent"@[0]);
    assert("spawn_agent"@[0] != "resize_terminal"@[0]);
    assert("spawn_agent"@[0] != "list_agents"@[0]);
    assert("spawn_agent"@[0] != "get_agent_status"@[0]);
    assert("agent_input"@[0] != "kill_agent"@[0]);
    assert("agent_input"@[0] != "resize_terminal"@[0]);
    assert("agent_input"@[0] != "list_agents"@[0]);
    assert("agent_input"@[0] != "get_agent_status"@[0]);
    assert("kill_agent"@[0] != "resize_terminal"@[0]);
    assert("kill_agent"@[0] != "list_agents"@[0]);
    assert("kill_agent"@[0] != "get_agent_status"@[0]);
    assert("resize_terminal"@[0] != "list_agents"@[0]);
    assert("resize_terminal"@[0] != "get_agent_status"@[0]);
    assert("list_agents"@[0] != "get_agent_status"@[0]);
    assert("type"@[0] != "seq"@[0]);
    assert("type"@[1] != "token"@[1]);
    assert("type"@[0] != "agent_id"@[0]);
    assert("type"@[0] != "input"@[0]);
    assert("type"@[0] != "cols"@[0]);
    assert("type"@[0] != "rows"@[0]);
    assert("seq"@[0] != "token"@[0]);
    assert("seq"@[0] != "agent_id"@[0]);
    assert("seq"@[0] != "input"@[0]);
    assert("seq"@[0] != "cols"@[0]);
    assert("seq"@[0] != "rows"@[0]);
    assert("token"@[0] != "agent_id"@[0]);
    assert("token"@[0] != "input"@[0]);
    assert("token"@[0] != "cols"@[0]);
    assert("token"@[0] != "rows"@[0]);
    assert("agent_id"@[0] != "input"@[0]);
    assert("agent_id"@[0] != "cols"@[0]);
    assert("agent_id"@[0] != "rows"@[0]);
    assert("input"@[0] != "cols"@[0]);
    assert("input"@[0] != "rows"@[0]);
    assert("cols"@[0] != "rows"@[0]);
    let ms = client_members(m);
    match m {
        _ => {},
    }
}

/// Reading a written client message gives it back: `decode(encode(m)) ==
/// m`, for every message whose identifier reads back from its written form,
/// as `ClientMessage::to_json` guarantees of the messages it writes.
pub proof fn law_client_round_trip(m: ClientModel)
    requires
        client_ids_read_back(m),
    ensures
        client_of_text(object_text(client_members(m))) == Some(m),
{
    lemma_client_schema(m);
    crate::roundtrip::lemma_parse_written(client_members(m));
}

/// Reading a written envelope: an older version than
/// `MIN_PROTOCOL_VERSION` is refused as unsupported, and the current version
/// with a message within its bounds is accepted as written.
#[verifier::rlimit(60)]
pub proof fn law_envelope_versions(v: u32, m: ClientModel)
    requires
        client_ids_read_back(m),
    ensures
        v < MIN_PROTOCOL_VERSION ==> envelope_verdict(object_text(client_envelope_members(v, m)))
            == EnvelopeVerdict::Unsupported(v),
        v == PROTOCOL_VERSION && validation_failure(m) is None ==> envelope_verdict(
            object_text(client_envelope_members(v, m)),
        ) == EnvelopeVerdict::Accepted(v, m),
{
    reveal_strlit("version");
    reveal_strlit("type");
    reveal_strlit("seq");
    reveal_strlit("token");
    reveal_strlit("project_path");
    reveal_strlit("preset");
    reveal_strlit("cols");
    reveal_strlit("rows");
    reveal_strlit("agent_id");
    reveal_strlit("input");
    reveal_strlit("signal");
    let ms = client_members(m);
    let head: Members = seq![int_member("version"@, v as int)];
    let env = client_envelope_members(v, m);
    lemma_client_schema(m);
    assert(crate::roundtrip::members_ok(env)) by {
        assert forall|k: int| 0 <= k < env.len() implies crate::roundtrip::value_ok(#[trigger] env[k].1) by {
            if k >= 1 {
                assert(env[k] == ms[k - 1]);
            }
        }
    }
    crate::roundtrip::lemma_parse_written(env);
    assert(env =~= seq![head[0]] + ms);
    assert("version"@[0] != "type"@[0]);
    assert("version"@[0] != "seq"@[0]);
    assert("version"@[0] != "token"@[0]);
    assert("version"@[0] != "project_path"@[0]);
    assert("version"@[0] != "preset"@[0]);
    assert("version"@[0] != "cols"@[0]);
    assert("version"@[0] != "rows"@[0]);
    assert("version"@[0] != "agent_id"@[0]);
    assert("version"@[0] != "input"@[0]);
    assert("version"@[0] != "signal"@[0]);
    lemma_lookup_cons(head[0], ms, "version"@);
    lemma_lookup_cons(head[0], ms, "type"@);
    lemma_lookup_cons(head[0], ms, "seq"@);
    lemma_lookup_cons(head[0], ms, "token"@);
    lemma_lookup_cons(head[0], ms, "project_path"@);
    lemma_lookup_cons(head[0], ms, "preset"@);
    lemma_lookup_cons(head[0], ms, "cols"@);
    lemma_lookup_cons(head[0], ms, "rows"@);
    lemma_lookup_cons(head[0], ms, "agent_id"@);
    lemma_lookup_cons(head[0], ms, "input"@);
    lemma_lookup_cons(head[0], ms, "signal"@);
    assert(version_of(env) == Some(v));
    assert(client_fields(env) == client_fields(ms));
    assert(client_of(env) == client_of(ms));
}

impl ServerEnvelope {
    /// The JSON text: the version, then the message's members.
    pub fn to_json(&self) -> (r: String)
        ensures
            r@ == object_text(server_envelope_members(self.version, self.message@)),
    {
        let mut ms: Vec<(String, Value)> = Vec::new();
        ms.push(int_entry("version", self.version as i128));
        let mut rest = server_to_members(&self.message);
        ms.append(&mut rest);
        assert(members_view(ms@) =~= server_envelope_members(self.version, self.message@));
        write_object(&ms)
    }

    /// Reads an envelope from JSON text.
    pub fn from_json(text: &str) -> (r: Result<ServerEnvelope, ProtocolError>)
        ensures
            match parse_document(text@) {
                None => is_serialization_error(r),
                Some(ms) => match server_envelope_of(ms) {
                    Some((v, m)) => r is Ok && r.unwrap().version == v && r.unwrap().message@ == m,
                    None => is_invalid_message(r),
                },
            },
    {
        let ms = match parse_object(text) {
            None => {
                return malformed();
            },
            Some(ms) => ms,
        };
        match (int_field(&ms, "version", 0, u32::MAX as i128), server_from_members(&ms)) {
            (Some(v), Some(m)) => Ok(ServerEnvelope { version: v as u32, message: m }),
            _ => unknown(),
        }
    }
}

} // verus!
