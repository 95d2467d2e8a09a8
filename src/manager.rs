//! The registry of live sessions and the events it publishes. Every event
//! that the manager hands out for publishing is also recorded in a ghost
//! log, over which the lifecycle laws are stated.

use vstd::prelude::*;
use crate::protocol::{AgentId, AgentInfo, AgentState};
use crate::pty::{PtyError, ReadOutcome, reason_name};
use crate::session::{AgentSession, LaunchCommand, SessionError, SpawnConfig, session_error_text};
use crate::text::push_str;

verus! {

/// Failures of registry operations.
#[derive(Debug, Clone, PartialEq)]
pub enum ManagerError {
    AgentNotFound(AgentId),
    SessionError(SessionError),
    BroadcastError(String),
}

pub open spec fn manager_error_text(e: ManagerError) -> Seq<char> {
    match e {
        ManagerError::AgentNotFound(id) => "Agent not found: "@ + crate::ids::uuid_text(id),
        ManagerError::SessionError(s) => "Session error: "@ + session_error_text(s),
        ManagerError::BroadcastError(m) => "Failed to broadcast event: "@ + m@,
    }
}

impl ManagerError {
    /// Human-readable description of the error.
    pub fn to_string(&self) -> (r: String)
        ensures
            r@ == manager_error_text(*self),
    {
        let mut out = String::new();
        match self {
            ManagerError::AgentNotFound(id) => {
                push_str(&mut out, "Agent not found: ");
                push_str(&mut out, crate::ids::format_uuid(*id).as_str());
            },
            ManagerError::SessionError(s) => {
                push_str(&mut out, "Session error: ");
                push_str(&mut out, s.to_string().as_str());
            },
            ManagerError::BroadcastError(m) => {
                push_str(&mut out, "Failed to broadcast event: ");
                push_str(&mut out, m.as_str());
            },
        }
        out
    }
}

/// Lifecycle events, published to every subscriber.
#[derive(Debug, Clone, PartialEq)]
pub enum AgentEvent {
    Spawned { agent_id: AgentId, project_path: String, cols: u16, rows: u16 },
    Output { agent_id: AgentId, data: Vec<u8> },
    Exited { agent_id: AgentId, exit_code: Option<i32>, reason: String },
    Resized { agent_id: AgentId, cols: u16, rows: u16 },
}

/// The kind of an event, as recorded in the log.
#[derive(Debug, Clone, Copy, PartialEq, Eq, Structural)]
pub enum EventKind {
    Spawned,
    Output,
    Exited,
    Resized,
}

/// The log entry of an event: its kind and agent.
pub open spec fn entry_of(e: AgentEvent) -> (EventKind, AgentId) {
    match e {
        AgentEvent::Spawned { agent_id, .. } => (EventKind::Spawned, agent_id),
        AgentEvent::Output { agent_id, .. } => (EventKind::Output, agent_id),
        AgentEvent::Exited { agent_id, .. } => (EventKind::Exited, agent_id),
        AgentEvent::Resized { agent_id, .. } => (EventKind::Resized, agent_id),
    }
}

pub type EventLog = Seq<(EventKind, AgentId)>;

/// How many entries of the log are `(k, id)`.
pub open spec fn count(log: EventLog, k: EventKind, id: AgentId) -> nat
    decreases log.len(),
{
    if log.len() == 0 {
        0
    } else {
        count(log.drop_last(), k, id) + (if log.last() == (k, id) {
            1nat
        } else {
            0nat
        })
    }
}

pub proof fn lemma_count_push(log: EventLog, e: (EventKind, AgentId), k: EventKind, id: AgentId)
    ensures
        count(log.push(e), k, id) == count(log, k, id) + (if e == (k, id) {
            1nat
        } else {
            0nat
        }),
{
    assert(log.push(e).drop_last() =~= log);
}

/// Some session in `s` has this identifier.
pub open spec fn has_id(s: Seq<AgentSession>, id: AgentId) -> bool {
    exists|i: int| 0 <= i < s.len() && #[trigger] s[i].spec_id() == id
}

pub open spec fn ids_unique(s: Seq<AgentSession>) -> bool {
    forall|i: int, j: int|
        0 <= i < s.len() && 0 <= j < s.len() && i != j ==> #[trigger] s[i].spec_id()
            != #[trigger] s[j].spec_id()
}

/// Registered sessions are well formed and hold their child: running or
/// stopping.
pub open spec fn all_live(s: Seq<AgentSession>) -> bool {
    forall|i: int|
        0 <= i < s.len() ==> (#[trigger] s[i]).wf() && (s[i].spec_state() == AgentState::Running
            || s[i].spec_state() == AgentState::Stopping)
}

/// Each agent was spawned once more than it exited while registered, and as
/// often as it exited otherwise.
pub open spec fn balanced(log: EventLog, s: Seq<AgentSession>) -> bool {
    forall|id: AgentId|
        #[trigger] count(log, EventKind::Spawned, id) == count(log, EventKind::Exited, id) + (if has_id(
            s,
            id,
        ) {
            1nat
        } else {
            0nat
        })
}

/// Every output or resize of an agent was published while the agent was
/// registered: after more spawns than exits of it.
pub open spec fn traffic_while_live(log: EventLog) -> bool {
    forall|j: int|
        0 <= j < log.len() && ((#[trigger] log[j]).0 == EventKind::Output || log[j].0 == EventKind::Resized)
            ==> count(log.take(j), EventKind::Spawned, log[j].1) > count(log.take(j), EventKind::Exited, log[j].1)
}

pub proof fn lemma_same_ids(a: Seq<AgentSession>, b: Seq<AgentSession>)
    requires
        a.len() == b.len(),
        forall|j: int| 0 <= j < a.len() ==> a[j].spec_id() == b[j].spec_id(),
    ensures
        forall|id: AgentId| has_id(a, id) == has_id(b, id),
{
    assert forall|id: AgentId| has_id(a, id) == has_id(b, id) by {
        if has_id(a, id) {
            let j = choose|j: int| 0 <= j < a.len() && #[trigger] a[j].spec_id() == id;
            assert(b[j].spec_id() == id);
        }
        if has_id(b, id) {
            let j = choose|j: int| 0 <= j < b.len() && #[trigger] b[j].spec_id() == id;
            assert(a[j].spec_id() == id);
        }
    }
}

/// Putting back a session with the same identifier, still live, keeps
/// the registry's invariant.
pub proof fn lemma_update_keeps(s: Seq<AgentSession>, i: int, x: AgentSession, log: EventLog)
    requires
        0 <= i < s.len(),
        ids_unique(s),
        all_live(s),
        balanced(log, s),
        x.spec_id() == s[i].spec_id(),
        x.wf(),
        x.spec_state() == AgentState::Running || x.spec_state() == AgentState::Stopping,
    ensures
        ids_unique(s.update(i, x)),
        all_live(s.update(i, x)),
        balanced(log, s.update(i, x)),
        forall|id: AgentId| has_id(s.update(i, x), id) == has_id(s, id),
{
    let t = s.update(i, x);
    assert forall|j: int| 0 <= j < s.len() implies s[j].spec_id() == t[j].spec_id() by {}
    lemma_same_ids(s, t);
}

/// Taking out the session at `i` leaves every other identifier registered.
pub proof fn lemma_remove_keeps(s: Seq<AgentSession>, i: int)
    requires
        0 <= i < s.len(),
        ids_unique(s),
        all_live(s),
    ensures
        ids_unique(s.remove(i)),
        all_live(s.remove(i)),
        forall|id: AgentId| has_id(s.remove(i), id) == (has_id(s, id) && id != s[i].spec_id()),
{
    let t = s.remove(i);
    assert forall|id: AgentId| has_id(t, id) == (has_id(s, id) && id != s[i].spec_id()) by {
        if has_id(t, id) {
            let j = choose|j: int| 0 <= j < t.len() && #[trigger] t[j].spec_id() == id;
            if j < i {
                assert(s[j].spec_id() == id);
            } else {
                assert(s[j + 1].spec_id() == id);
            }
        }
        if has_id(s, id) && id != s[i].spec_id() {
            let j = choose|j: int| 0 <= j < s.len() && #[trigger] s[j].spec_id() == id;
            if j < i {
                assert(t[j].spec_id() == id);
            } else {
                assert(t[j - 1].spec_id() == id);
            }
        }
    }
    assert forall|a: int, b: int|
        0 <= a < t.len() && 0 <= b < t.len() && a != b implies #[trigger] t[a].spec_id()
        != #[trigger] t[b].spec_id() by {
        let a2 = if a < i {
            a
        } else {
            a + 1
        };
        let b2 = if b < i {
            b
        } else {
            b + 1
        };
        assert(t[a] == s[a2]);
        assert(t[b] == s[b2]);
    }
    assert forall|a: int| 0 <= a < t.len() implies (#[trigger] t[a]).wf() && (t[a].spec_state()
        == AgentState::Running || t[a].spec_state() == AgentState::Stopping) by {
        let a2 = if a < i {
            a
        } else {
            a + 1
        };
        assert(t[a] == s[a2]);
    }
}

/// Appending an entry keeps the entries before it, and their prefixes.
pub proof fn lemma_log_push_keeps_traffic(log: EventLog, e: (EventKind, AgentId))
    requires
        traffic_while_live(log),
        (e.0 == EventKind::Output || e.0 == EventKind::Resized) ==> count(log, EventKind::Spawned, e.1) > count(
            log,
            EventKind::Exited,
            e.1,
        ),
    ensures
        traffic_while_live(log.push(e)),
{
    let l = log.push(e);
    assert forall|j: int|
        0 <= j < l.len() && ((#[trigger] l[j]).0 == EventKind::Output || l[j].0 == EventKind::Resized) implies count(
        l.take(j),
        EventKind::Spawned,
        l[j].1,
    ) > count(l.take(j), EventKind::Exited, l[j].1) by {
        if j < log.len() {
            assert(l.take(j) =~= log.take(j));
            assert(l[j] == log[j]);
        } else {
            assert(l.take(j) =~= log);
        }
    }
}

/// The same sessions, in order, with the same sizes.
pub open spec fn same_sizes(a: Seq<AgentSession>, b: Seq<AgentSession>) -> bool {
    &&& a.len() == b.len()
    &&& forall|i: int|
        0 <= i < a.len() ==> (#[trigger] b[i]).spec_id() == a[i].spec_id() && b[i].spec_cols() == a[i].spec_cols()
            && b[i].spec_rows() == a[i].spec_rows()
}

/// The `Spawned` event of a session: its id, project path and size.
pub open spec fn spawned_event(e: AgentEvent, s: AgentSession) -> bool {
    match e {
        AgentEvent::Spawned { agent_id, project_path, cols, rows } => agent_id == s.spec_id() && project_path@
            == s.spec_path() && cols == s.spec_cols() && rows == s.spec_rows(),
        _ => false,
    }
}

/// `s` is the running session that `from` became once started.
pub open spec fn registered_from(s: AgentSession, from: AgentSession) -> bool {
    &&& s.spec_id() == from.spec_id()
    &&& s.spec_path() == from.spec_path()
    &&& s.spec_cols() == from.spec_cols()
    &&& s.spec_rows() == from.spec_rows()
    &&& s.spec_state() == AgentState::Running
    &&& s.spec_process() is Some && s.spec_process().unwrap().spec_exit() is None
}

/// The registry: live sessions, keyed by their identifiers.
pub struct AgentManager {
    sessions: Vec<AgentSession>,
    log: Ghost<EventLog>,
}

/// The listing entry of a session.
pub open spec fn info_matches(a: AgentInfo, s: AgentSession) -> bool {
    &&& a.agent_id == s.spec_id()
    &&& a.project_path@ == s.spec_path()
    &&& a.status == s.spec_state()
    &&& a.cols == s.spec_cols()
    &&& a.rows == s.spec_rows()
}

impl AgentManager {
    pub closed spec fn spec_sessions(&self) -> Seq<AgentSession> {
        self.sessions@
    }

    /// Every event handed out so far, in order.
    pub closed spec fn events(&self) -> EventLog {
        self.log@
    }

    pub open spec fn contains(&self, id: AgentId) -> bool {
        has_id(self.spec_sessions(), id)
    }

    pub open spec fn wf(&self) -> bool {
        &&& ids_unique(self.spec_sessions())
        &&& all_live(self.spec_sessions())
        &&& balanced(self.events(), self.spec_sessions())
        &&& traffic_while_live(self.events())
    }

    /// An empty registry.
    pub fn new() -> (r: AgentManager)
        ensures
            r.wf(),
            r.spec_sessions().len() == 0,
            r.events().len() == 0,
    {
        AgentManager { sessions: Vec::new(), log: Ghost(Seq::empty()) }
    }

    /// The number of live sessions.
    pub fn session_count(&self) -> (r: usize)
        ensures
            r == self.spec_sessions().len(),
    {
        self.sessions.len()
    }

    fn find(&self, id: AgentId) -> (r: Option<usize>)
        requires
            self.wf(),
        ensures
            r is Some <==> self.contains(id),
            r is Some ==> r.unwrap() < self.spec_sessions().len() && self.spec_sessions()[r.unwrap() as int].spec_id()
                == id,
    {
        let mut i: usize = 0;
        while i < self.sessions.len()
            invariant
                i <= self.sessions.len(),
                forall|j: int| 0 <= j < i ==> (#[trigger] self.sessions@[j]).spec_id() != id,
            decreases self.sessions.len() - i,
        {
            if self.sessions[i].id() == id {
                return Some(i);
            }
            i += 1;
        }
        None
    }

    /// Builds a session from the configuration and begins starting it, given
    /// whether the project path exists and is a directory. The registry is
    /// not touched.
    pub fn prepare_spawn(config: SpawnConfig, path_exists: bool, path_is_dir: bool) -> (r: Result<
        (AgentSession, LaunchCommand),
        ManagerError,
    >)
        ensures
            r is Ok <==> path_exists && path_is_dir,
            r is Ok ==> r.unwrap().0.wf() && r.unwrap().0.spec_state() == AgentState::Starting
                && r.unwrap().0.spec_path() == config.project_path@ && r.unwrap().0.spec_cols() == config.cols
                && r.unwrap().0.spec_rows() == config.rows && crate::session::launches(r.unwrap().1, r.unwrap().0),
            r matches Err(ManagerError::SessionError(SessionError::InvalidPath(_))) || r is Ok,
    {
        let mut session = AgentSession::with_config(config);
        match session.spawn(path_exists, path_is_dir) {
            Ok(cmd) => Ok((session, cmd)),
            Err(e) => Err(ManagerError::SessionError(e)),
        }
    }

    /// Finishes starting a session, given what launching its child gave. On
    /// success the session is registered and `Spawned` is handed out; on
    /// failure the registry is unchanged.
    pub fn spawn_agent(&mut self, session: AgentSession, launched: Result<(), PtyError>) -> (r: Result<
        (AgentId, AgentEvent),
        ManagerError,
    >)
        requires
            old(self).wf(),
            session.wf(),
            session.spec_state() == AgentState::Starting,
        ensures
            final(self).wf(),
            r is Ok <==> (launched is Ok && !old(self).contains(session.spec_id())),
            r is Ok ==> r.unwrap().0 == session.spec_id() && final(self).contains(session.spec_id())
                && entry_of(r.unwrap().1) == (EventKind::Spawned, session.spec_id())
                && final(self).events() == old(self).events().push(entry_of(r.unwrap().1))
                && final(self).spec_sessions() == old(self).spec_sessions().push(
                    final(self).spec_sessions().last(),
                ) && registered_from(final(self).spec_sessions().last(), session) && spawned_event(
                r.unwrap().1,
                session,
            ),
            r is Err ==> final(self).spec_sessions() == old(self).spec_sessions() && final(self).events()
                == old(self).events(),
    {
        let mut session = session;
        let id = session.id();
        if let Err(e) = session.spawn_finished(launched) {
            return Err(ManagerError::SessionError(e));
        }
        if self.find(id).is_some() {
            return Err(ManagerError::SessionError(SessionError::AlreadyRunning));
        }
        let event = AgentEvent::Spawned {
            agent_id: id,
            project_path: session.project_path().to_owned(),
            cols: session.cols(),
            rows: session.rows(),
        };
        let ghost old_sessions = self.sessions@;
        let ghost old_log = self.log@;
        proof {
            session.lemma_live_holds_child();
        }
        self.sessions.push(session);
        self.log = Ghost(self.log@.push((EventKind::Spawned, id)));
        proof {
            let s = self.sessions@;
            assert(s.drop_last() =~= old_sessions);
            assert forall|x: AgentId| has_id(s, x) == (has_id(old_sessions, x) || x == id) by {
                if has_id(old_sessions, x) {
                    let j = choose|j: int| 0 <= j < old_sessions.len() && #[trigger] old_sessions[j].spec_id() == x;
                    assert(s[j].spec_id() == x);
                }
                if x == id {
                    assert(s[s.len() - 1].spec_id() == x);
                }
                if has_id(s, x) {
                    let j = choose|j: int| 0 <= j < s.len() && #[trigger] s[j].spec_id() == x;
                    if j < old_sessions.len() {
                        assert(old_sessions[j].spec_id() == x);
                    }
                }
            }
            assert forall|x: AgentId| #[trigger]
                count(self.log@, EventKind::Spawned, x) == count(self.log@, EventKind::Exited, x) + (if has_id(
                    s,
                    x,
                ) {
                    1nat
                } else {
                    0nat
                }) by {
                lemma_count_push(old_log, (EventKind::Spawned, id), EventKind::Spawned, x);
                lemma_count_push(old_log, (EventKind::Spawned, id), EventKind::Exited, x);
            }
            assert forall|j: int|
                0 <= j < self.log@.len() && ((#[trigger] self.log@[j]).0 == EventKind::Output
                    || self.log@[j].0 == EventKind::Resized) implies count(
                self.log@.take(j),
                EventKind::Spawned,
                self.log@[j].1,
            ) > count(self.log@.take(j), EventKind::Exited, self.log@[j].1) by {
                assert(self.log@.take(j) =~= old_log.take(j));
                assert(old_log[j] == self.log@[j]);
            }
        }
        Ok((id, event))
    }

    /// The live sessions, in registration order.
    pub fn list_agents(&self) -> (r: Vec<AgentInfo>)
        requires
            self.wf(),
        ensures
            r@.len() == self.spec_sessions().len(),
            forall|i: int| 0 <= i < r@.len() ==> info_matches(#[trigger] r@[i], self.spec_sessions()[i]),
    {
        let mut out: Vec<AgentInfo> = Vec::new();
        let mut i: usize = 0;
        while i < self.sessions.len()
            invariant
                i <= self.sessions.len(),
                out@.len() == i,
                forall|j: int| 0 <= j < i ==> info_matches(#[trigger] out@[j], self.sessions@[j]),
            decreases self.sessions.len() - i,
        {
            let s = &self.sessions[i];
            out.push(
                AgentInfo {
                    agent_id: s.id(),
                    project_path: s.project_path().to_owned(),
                    status: s.state(),
                    cols: s.cols(),
                    rows: s.rows(),
                },
            );
            i += 1;
        }
        out
    }

    /// Whether a session with this identifier is registered.
    pub fn agent_exists(&self, id: AgentId) -> (r: bool)
        requires
            self.wf(),
        ensures
            r == self.contains(id),
    {
        self.find(id).is_some()
    }

    /// The listing entry of one session.
    pub fn get_agent_status(&self, id: AgentId) -> (r: Result<AgentInfo, ManagerError>)
        requires
            self.wf(),
        ensures
            !self.contains(id) ==> r == Err::<AgentInfo, ManagerError>(ManagerError::AgentNotFound(id)),
            self.contains(id) ==> r is Ok && exists|i: int|
                0 <= i < self.spec_sessions().len() && info_matches(r.unwrap(), #[trigger] self.spec_sessions()[i])
                    && self.spec_sessions()[i].spec_id() == id,
    {
        match self.find(id) {
            None => Err(ManagerError::AgentNotFound(id)),
            Some(i) => {
                let s = &self.sessions[i];
                Ok(
                    AgentInfo {
                        agent_id: s.id(),
                        project_path: s.project_path().to_owned(),
                        status: s.state(),
                        cols: s.cols(),
                        rows: s.rows(),
                    },
                )
            },
        }
    }

    /// The state of one session.
    pub fn agent_state(&self, id: AgentId) -> (r: Result<AgentState, ManagerError>)
        requires
            self.wf(),
        ensures
            !self.contains(id) ==> r == Err::<AgentState, ManagerError>(ManagerError::AgentNotFound(id)),
            self.contains(id) ==> r is Ok && exists|i: int|
                0 <= i < self.spec_sessions().len() && (#[trigger] self.spec_sessions()[i]).spec_id() == id
                    && self.spec_sessions()[i].spec_state() == r.unwrap(),
    {
        match self.find(id) {
            None => Err(ManagerError::AgentNotFound(id)),
            Some(i) => Ok(self.sessions[i].state()),
        }
    }

    /// May input go to this agent: it must be registered and its child
    /// not gone.
    pub fn send_input(&self, id: AgentId) -> (r: Result<(), ManagerError>)
        requires
            self.wf(),
        ensures
            r == self.spec_send_check(id),
    {
        match self.find(id) {
            None => Err(ManagerError::AgentNotFound(id)),
            Some(i) => {
                proof {
                    self.sessions@[i as int].lemma_live_holds_child();
                    if exists|k: int|
                        0 <= k < self.sessions@.len() && (#[trigger] self.sessions@[k]).spec_id() == id
                            && self.sessions@[k].spec_process().unwrap().spec_exit() is None {
                        let k = choose|k: int|
                            0 <= k < self.sessions@.len() && (#[trigger] self.sessions@[k]).spec_id() == id
                                && self.sessions@[k].spec_process().unwrap().spec_exit() is None;
                        assert(k == i);
                    }
                }
                match self.sessions[i].write_input() {
                    Ok(()) => Ok(()),
                    Err(e) => Err(ManagerError::SessionError(e)),
                }
            },
        }
    }
}


impl AgentManager {
    /// Puts a session taken out at `i` back in its place.
    fn put_back(&mut self, i: usize, s: AgentSession)
        requires
            i <= old(self).spec_sessions().len(),
        ensures
            final(self).spec_sessions() == old(self).spec_sessions().insert(i as int, s),
            final(self).events() == old(self).events(),
    {
        self.sessions.insert(i, s);
    }

    /// Kill on request: the session stops and its child counts as gone;
    /// it stays registered until its exit is polled.
    pub fn kill_agent(&mut self, id: AgentId) -> (r: Result<(), ManagerError>)
        requires
            old(self).wf(),
        ensures
            final(self).wf(),
            final(self).events() == old(self).events(),
            forall|x: AgentId| final(self).contains(x) == old(self).contains(x),
            !old(self).contains(id) ==> r == Err::<(), ManagerError>(ManagerError::AgentNotFound(id))
                && final(self).spec_sessions() == old(self).spec_sessions(),
            old(self).contains(id) ==> r is Ok && exists|i: int|
                0 <= i < final(self).spec_sessions().len() && (#[trigger] final(self).spec_sessions()[i]).spec_id()
                    == id && final(self).spec_sessions()[i].spec_state() == AgentState::Stopping
                    && final(self).spec_sessions()[i].spec_process().unwrap().spec_exit() is Some,
    {
        match self.find(id) {
            None => Err(ManagerError::AgentNotFound(id)),
            Some(i) => {
                let ghost before = self.sessions@;
                let mut s = self.sessions.remove(i);
                proof {
                    assert(s == before[i as int]);
                    s.lemma_live_holds_child();
                }
                let _ = s.kill();
                proof {
                    s.lemma_live_holds_child();
                }
                self.put_back(i, s);
                proof {
                    assert(self.sessions@ =~= before.update(i as int, s));
                    lemma_update_keeps(before, i as int, s, self.log@);
                    assert(self.sessions@[i as int] == s);
                }
                Ok(())
            },
        }
    }

    /// May this agent's terminal be resized: the same condition as for
    /// input.
    pub fn resize_target(&self, id: AgentId) -> (r: Result<(), ManagerError>)
        requires
            self.wf(),
        ensures
            r == self.spec_send_check(id),
    {
        self.send_input(id)
    }

    pub open spec fn spec_send_check(&self, id: AgentId) -> Result<(), ManagerError> {
        if !self.contains(id) {
            Err(ManagerError::AgentNotFound(id))
        } else if exists|i: int|
            0 <= i < self.spec_sessions().len() && (#[trigger] self.spec_sessions()[i]).spec_id() == id
                && self.spec_sessions()[i].spec_process().unwrap().spec_exit() is None {
            Ok(())
        } else {
            Err(ManagerError::SessionError(SessionError::PtyError(PtyError::ProcessExited)))
        }
    }

    /// Records a resize, given what the terminal answered; on success the
    /// session takes the new size and `Resized` is handed out.
    #[verifier::rlimit(40)]
    pub fn resize_agent(&mut self, id: AgentId, cols: u16, rows: u16, outcome: Result<(), String>) -> (r:
        Result<AgentEvent, ManagerError>)
        requires
            old(self).wf(),
        ensures
            final(self).wf(),
            forall|x: AgentId| final(self).contains(x) == old(self).contains(x),
            !old(self).contains(id) ==> r == Err::<AgentEvent, ManagerError>(ManagerError::AgentNotFound(id)),
            r is Ok ==> r.unwrap() == (AgentEvent::Resized { agent_id: id, cols, rows })
                && final(self).events() == old(self).events().push((EventKind::Resized, id))
                && exists|i: int|
                0 <= i < final(self).spec_sessions().len() && (#[trigger] final(self).spec_sessions()[i]).spec_id()
                    == id && final(self).spec_sessions()[i].spec_cols() == cols
                    && final(self).spec_sessions()[i].spec_rows() == rows,
            r is Err ==> final(self).events() == old(self).events() && same_sizes(
                old(self).spec_sessions(),
                final(self).spec_sessions(),
            ),
            old(self).contains(id) && old(self).spec_send_check(id) is Ok && outcome is Ok ==> r is Ok,
            r is Ok ==> outcome is Ok && old(self).spec_send_check(id) is Ok,
            r matches Err(ManagerError::AgentNotFound(_)) ==> !old(self).contains(id),
    {
        match self.find(id) {
            None => Err(ManagerError::AgentNotFound(id)),
            Some(i) => {
                let ghost before = self.sessions@;
                let ghost old_log = self.log@;
                let mut s = self.sessions.remove(i);
                proof {
                    assert(s == before[i as int]);
                    s.lemma_live_holds_child();
                    if self.spec_send_check(id) is Ok {
                        let k = choose|k: int|
                            0 <= k < before.len() && (#[trigger] before[k]).spec_id() == id
                                && before[k].spec_process().unwrap().spec_exit() is None;
                        assert(k == i);
                    }
                }
                let res = s.resize(cols, rows, outcome);
                proof {
                    s.lemma_live_holds_child();
                }
                self.put_back(i, s);
                proof {
                    assert(self.sessions@ =~= before.update(i as int, s));
                    lemma_update_keeps(before, i as int, s, self.log@);
                    assert(self.sessions@[i as int] == s);
                }
                match res {
                    Ok(()) => {
                        proof {
                            lemma_count_push(old_log, (EventKind::Resized, id), EventKind::Spawned, id);
                            lemma_count_push(old_log, (EventKind::Resized, id), EventKind::Exited, id);
                            assert(has_id(self.sessions@, id));
                            lemma_log_push_keeps_traffic(old_log, (EventKind::Resized, id));
                        }
                        self.log = Ghost(self.log@.push((EventKind::Resized, id)));
                        proof {
                            assert forall|x: AgentId| #[trigger]
                                count(self.log@, EventKind::Spawned, x) == count(self.log@, EventKind::Exited, x)
                                    + (if has_id(self.sessions@, x) {
                                    1nat
                                } else {
                                    0nat
                                }) by {
                                lemma_count_push(old_log, (EventKind::Resized, id), EventKind::Spawned, x);
                                lemma_count_push(old_log, (EventKind::Resized, id), EventKind::Exited, x);
                            }
                        }
                        assert(before[i as int].spec_id() == id);
                        assert(before[i as int].spec_process().unwrap().spec_exit() is None);
                        assert(self.sessions@[i as int].spec_id() == id);
                        assert(self.sessions@[i as int].spec_cols() == cols);
                        assert(self.sessions@[i as int].spec_rows() == rows);
                        assert(self.spec_sessions()[i as int].spec_id() == id);
                        Ok(AgentEvent::Resized { agent_id: id, cols, rows })
                    },
                    Err(e) => {
                        assert(same_sizes(before, self.sessions@));
                        Err(ManagerError::SessionError(e))
                    },
                }
            },
        }
    }

    /// Output read from an agent's terminal: handed out as `Output` while
    /// the agent is registered, dropped otherwise.
    pub fn on_output(&mut self, id: AgentId, data: Vec<u8>) -> (r: Option<AgentEvent>)
        requires
            old(self).wf(),
        ensures
            final(self).wf(),
            final(self).spec_sessions() == old(self).spec_sessions(),
            r is Some <==> old(self).contains(id),
            r is Some ==> r.unwrap() == (AgentEvent::Output { agent_id: id, data })
                && final(self).events() == old(self).events().push((EventKind::Output, id)),
            r is None ==> final(self).events() == old(self).events(),
    {
        if self.find(id).is_none() {
            return None;
        }
        let ghost old_log = self.log@;
        proof {
            lemma_count_push(old_log, (EventKind::Output, id), EventKind::Spawned, id);
            lemma_count_push(old_log, (EventKind::Output, id), EventKind::Exited, id);
            lemma_log_push_keeps_traffic(old_log, (EventKind::Output, id));
        }
        self.log = Ghost(self.log@.push((EventKind::Output, id)));
        proof {
            assert forall|x: AgentId| #[trigger]
                count(self.log@, EventKind::Spawned, x) == count(self.log@, EventKind::Exited, x) + (if has_id(
                    self.sessions@,
                    x,
                ) {
                    1nat
                } else {
                    0nat
                }) by {
                lemma_count_push(old_log, (EventKind::Output, id), EventKind::Spawned, x);
                lemma_count_push(old_log, (EventKind::Output, id), EventKind::Exited, x);
            }
        }
        Some(AgentEvent::Output { agent_id: id, data })
    }

    /// Once an agent's child is gone: the session stops, leaves the
    /// registry, and its one `Exited` is handed out. Otherwise nothing
    /// changes.
    pub fn poll_exit(&mut self, id: AgentId) -> (r: Option<AgentEvent>)
        requires
            old(self).wf(),
        ensures
            final(self).wf(),
            r is Some ==> old(self).contains(id) && !final(self).contains(id) && entry_of(r.unwrap()) == (
            EventKind::Exited, id) && final(self).events() == old(self).events().push(entry_of(r.unwrap()))
                && forall|x: AgentId| x != id ==> final(self).contains(x) == old(self).contains(x),
            r is None ==> final(self).events() == old(self).events() && final(self).spec_sessions()
                == old(self).spec_sessions(),
            old(self).contains(id) && (exists|i: int|
                0 <= i < old(self).spec_sessions().len() && (#[trigger] old(self).spec_sessions()[i]).spec_id()
                    == id && old(self).spec_sessions()[i].spec_process().unwrap().spec_exit() is Some)
                ==> r is Some,
    {
        match self.find(id) {
            None => None,
            Some(i) => {
                let ghost before = self.sessions@;
                let ghost old_log = self.log@;
                let mut s = self.sessions.remove(i);
                proof {
                    assert(s == before[i as int]);
                    s.lemma_live_holds_child();
                    lemma_remove_keeps(before, i as int);
                    if exists|k: int|
                        0 <= k < before.len() && (#[trigger] before[k]).spec_id() == id
                            && before[k].spec_process().unwrap().spec_exit() is Some {
                        let k = choose|k: int|
                            0 <= k < before.len() && (#[trigger] before[k]).spec_id() == id
                                && before[k].spec_process().unwrap().spec_exit() is Some;
                        assert(k == i);
                    }
                }
                match s.poll_exit() {
                    None => {
                        self.put_back(i, s);
                        proof {
                            assert(self.sessions@ =~= before);
                        }
                        None
                    },
                    Some(exit) => {
                        let event = AgentEvent::Exited {
                            agent_id: id,
                            exit_code: exit.exit_code,
                            reason: exit.reason.name().to_owned(),
                        };
                        self.log = Ghost(self.log@.push((EventKind::Exited, id)));
                        proof {
                            lemma_log_push_keeps_traffic(old_log, (EventKind::Exited, id));
                            assert forall|x: AgentId| #[trigger]
                                count(self.log@, EventKind::Spawned, x) == count(self.log@, EventKind::Exited, x)
                                    + (if has_id(self.sessions@, x) {
                                    1nat
                                } else {
                                    0nat
                                }) by {
                                lemma_count_push(old_log, (EventKind::Exited, id), EventKind::Spawned, x);
                                lemma_count_push(old_log, (EventKind::Exited, id), EventKind::Exited, x);
                            }
                        }
                        Some(event)
                    },
                }
            },
        }
    }

    /// What a read of an agent's terminal gave: bytes become `Output`; end
    /// of file or a failure mark the child as gone, and its exit is handed
    /// out at once.
    pub fn on_read(&mut self, id: AgentId, o: ReadOutcome) -> (r: Option<AgentEvent>)
        requires
            old(self).wf(),
        ensures
            final(self).wf(),
            r is Some ==> final(self).events() == old(self).events().push(entry_of(r.unwrap())),
            r is None ==> final(self).events() == old(self).events(),
            r matches Some(AgentEvent::Exited { agent_id, .. }) ==> agent_id == id && !final(self).contains(id),
            o matches ReadOutcome::Bytes(b) && b@.len() > 0 ==> r == (if old(self).contains(id) {
                Some(AgentEvent::Output { agent_id: id, data: o->Bytes_0 })
            } else {
                None::<AgentEvent>
            }),
            (o is WouldBlock || o is Shutdown) ==> r is None,
            !old(self).contains(id) ==> r is None && final(self).spec_sessions() == old(self).spec_sessions()
                && final(self).events() == old(self).events(),
            (o is WouldBlock || o is Shutdown || (o matches ReadOutcome::Bytes(b) && b@.len() > 0))
                ==> final(self).spec_sessions() == old(self).spec_sessions(),
            (old(self).contains(id) && crate::pty::exit_of_read(o) is Some) ==> (r is Some && entry_of(r.unwrap())
                == (EventKind::Exited, id)),
    {
        let o = match o {
            ReadOutcome::Bytes(b) => {
                if b.len() > 0 {
                    return self.on_output(id, b);
                }
                ReadOutcome::Bytes(b)
            },
            ReadOutcome::Failed => ReadOutcome::Failed,
            _ => {
                return None;
            },
        };
        match self.find(id) {
            None => None,
            Some(i) => {
                let ghost before = self.sessions@;
                let mut s = self.sessions.remove(i);
                proof {
                    assert(s == before[i as int]);
                    s.lemma_live_holds_child();
                }
                s.record_read(&o);
                proof {
                    s.lemma_live_holds_child();
                }
                self.put_back(i, s);
                proof {
                    assert(self.sessions@ =~= before.update(i as int, s));
                    lemma_update_keeps(before, i as int, s, self.log@);
                    assert(self.sessions@[i as int] == s);
                }
                self.poll_exit(id)
            },
        }
    }

    /// Kills every live session, at server shutdown; each leaves the
    /// registry when its exit is polled. Returns the identifiers killed.
    pub fn shutdown_all(&mut self) -> (r: Vec<AgentId>)
        requires
            old(self).wf(),
        ensures
            final(self).wf(),
            final(self).events() == old(self).events(),
            forall|x: AgentId| final(self).contains(x) == old(self).contains(x),
            r@.len() == old(self).spec_sessions().len(),
            forall|i: int| 0 <= i < r@.len() ==> #[trigger] r@[i] == old(self).spec_sessions()[i].spec_id(),
            forall|i: int|
                0 <= i < final(self).spec_sessions().len() ==> (#[trigger] final(self).spec_sessions()[i]).spec_process().unwrap().spec_exit() is Some,
    {
        let ghost start = self.sessions@;
        let mut ids: Vec<AgentId> = Vec::new();
        let mut i: usize = 0;
        while i < self.sessions.len()
            invariant
                self.wf(),
                self.events() == old(self).events(),
                self.sessions@.len() == start.len(),
                start == old(self).spec_sessions(),
                i <= self.sessions@.len(),
                ids@.len() == i,
                forall|j: int| 0 <= j < start.len() ==> #[trigger] self.sessions@[j].spec_id() == start[j].spec_id(),
                forall|j: int| 0 <= j < i ==> #[trigger] ids@[j] == start[j].spec_id(),
                forall|j: int| 0 <= j < i ==> (#[trigger] self.sessions@[j]).spec_process().unwrap().spec_exit() is Some,
            decreases self.sessions@.len() - i,
        {
            let ghost before = self.sessions@;
            let mut s = self.sessions.remove(i);
            proof {
                assert(s == before[i as int]);
                s.lemma_live_holds_child();
            }
            let _ = s.kill();
            proof {
                s.lemma_live_holds_child();
            }
            ids.push(s.id());
            self.put_back(i, s);
            proof {
                assert(self.sessions@ =~= before.update(i as int, s));
                lemma_update_keeps(before, i as int, s, self.log@);
                assert(self.sessions@[i as int] == s);
            }
            i += 1;
        }
        proof {
            lemma_same_ids(start, self.sessions@);
        }
        ids
    }
}


impl Default for AgentManager {
    /// An empty registry.
    fn default() -> (r: AgentManager)
        ensures
            r.wf(),
            r.spec_sessions().len() == 0,
            r.events().len() == 0,
    {
        AgentManager::new()
    }
}

/// An entry counted in the log occurs in it.
pub proof fn lemma_count_positive(log: EventLog, k: EventKind, id: AgentId)
    requires
        count(log, k, id) > 0,
    ensures
        exists|i: int| 0 <= i < log.len() && log[i] == (k, id),
    decreases log.len(),
{
    if log.last() == (k, id) {
        assert(log[log.len() - 1] == (k, id));
    } else {
        lemma_count_positive(log.drop_last(), k, id);
        let i = choose|i: int| 0 <= i < log.drop_last().len() && log.drop_last()[i] == (k, id);
        assert(log[i] == (k, id));
    }
}

/// An agent is listed exactly while more of its spawns than of its exits
/// have been published: from `spawn_agent` until its `Exited`.
pub proof fn law_listed_until_exit(m: AgentManager, id: AgentId)
    requires
        m.wf(),
    ensures
        m.contains(id) <==> count(m.events(), EventKind::Spawned, id) > count(m.events(), EventKind::Exited, id),
{
    assert(count(m.events(), EventKind::Spawned, id) == count(m.events(), EventKind::Exited, id) + (if m.contains(
        id,
    ) {
        1nat
    } else {
        0nat
    }));
}

/// Every spawn of an agent is closed by exactly one `Exited`, except the
/// one still running: exits are spawns less the live session.
pub proof fn law_one_exit_per_session(m: AgentManager, id: AgentId)
    requires
        m.wf(),
    ensures
        count(m.events(), EventKind::Exited, id) == count(m.events(), EventKind::Spawned, id) - (if m.contains(
            id,
        ) {
            1int
        } else {
            0int
        }),
        count(m.events(), EventKind::Exited, id) <= count(m.events(), EventKind::Spawned, id),
{
    assert(count(m.events(), EventKind::Spawned, id) == count(m.events(), EventKind::Exited, id) + (if m.contains(
        id,
    ) {
        1nat
    } else {
        0nat
    }));
}

/// Every `Output` (and `Resized`) of an agent comes after a `Spawned` of
/// that agent.
pub proof fn law_output_follows_spawn(m: AgentManager, j: int)
    requires
        m.wf(),
        0 <= j < m.events().len(),
        m.events()[j].0 == EventKind::Output || m.events()[j].0 == EventKind::Resized,
    ensures
        exists|i: int| 0 <= i < j && m.events()[i] == (EventKind::Spawned, m.events()[j].1),
{
    let log = m.events();
    assert(count(log.take(j), EventKind::Spawned, log[j].1) > 0);
    lemma_count_positive(log.take(j), EventKind::Spawned, log[j].1);
    let i = choose|i: int| 0 <= i < log.take(j).len() && log.take(j)[i] == (EventKind::Spawned, log[j].1);
    assert(log[i] == (EventKind::Spawned, log[j].1));
}

} // verus!
