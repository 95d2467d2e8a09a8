//! One agent session: identity, project, terminal size and the lifecycle
//! Stopped → Starting → Running → Stopping → Stopped.

use vstd::prelude::*;
use crate::protocol::{AgentId, AgentState, DEFAULT_TERMINAL_COLS, DEFAULT_TERMINAL_ROWS};
use crate::pty::{ExitReason, ProcessExit, PtyError, PtyProcess, ReadOutcome, TerminalSize, pty_error_text};
use crate::text::push_str;

verus! {

/// Failures of session operations.
#[derive(Debug, Clone, PartialEq)]
pub enum SessionError {
    SpawnFailed(String),
    NotRunning,
    AlreadyRunning,
    PtyError(PtyError),
    InvalidPath(String),
    SendError(String),
}

pub open spec fn session_error_text(e: SessionError) -> Seq<char> {
    match e {
        SessionError::SpawnFailed(m) => "Failed to spawn agent: "@ + m@,
        SessionError::NotRunning => "Agent not running"@,
        SessionError::AlreadyRunning => "Agent already running"@,
        SessionError::PtyError(p) => "PTY error: "@ + pty_error_text(p),
        SessionError::InvalidPath(m) => "Invalid project path: "@ + m@,
        SessionError::SendError(m) => "Send error: "@ + m@,
    }
}

impl SessionError {
    /// Human-readable description of the error.
    pub fn to_string(&self) -> (r: String)
        ensures
            r@ == session_error_text(*self),
    {
        let mut out = String::new();
        match self {
            SessionError::SpawnFailed(m) => {
                push_str(&mut out, "Failed to spawn agent: ");
                push_str(&mut out, m.as_str());
            },
            SessionError::NotRunning => push_str(&mut out, "Agent not running"),
            SessionError::AlreadyRunning => push_str(&mut out, "Agent already running"),
            SessionError::PtyError(p) => {
                push_str(&mut out, "PTY error: ");
                push_str(&mut out, p.to_string().as_str());
            },
            SessionError::InvalidPath(m) => {
                push_str(&mut out, "Invalid project path: ");
                push_str(&mut out, m.as_str());
            },
            SessionError::SendError(m) => {
                push_str(&mut out, "Send error: ");
                push_str(&mut out, m.as_str());
            },
        }
        out
    }
}

/// Output of an agent.
#[derive(Debug, Clone)]
pub struct AgentOutput {
    pub data: Vec<u8>,
}

/// The one notice that a session's child is gone.
#[derive(Debug, Clone, Copy, PartialEq, Eq, Structural)]
pub struct AgentExit {
    pub session_id: AgentId,
    pub exit_code: Option<i32>,
    pub reason: ExitReason,
}

/// How to start an agent.
#[derive(Debug, Clone)]
pub struct SpawnConfig {
    pub project_path: String,
    pub cols: u16,
    pub rows: u16,
    pub preset: Option<String>,
    /// The program to run.
    pub command: String,
    /// Extra arguments, from the preset.
    pub args: Vec<String>,
    /// Text written to the agent right after it starts.
    pub initial_prompt: Option<String>,
}

impl SpawnConfig {
    /// A configuration with the default size, no preset, no arguments, and
    /// no program yet: the server's configured program is set with
    /// `with_command`.
    pub fn new(project_path: &str) -> (r: SpawnConfig)
        ensures
            r.project_path@ == project_path@,
            r.cols == DEFAULT_TERMINAL_COLS,
            r.rows == DEFAULT_TERMINAL_ROWS,
            r.preset is None,
            r.command@.len() == 0,
            r.args@.len() == 0,
            r.initial_prompt is None,
    {
        SpawnConfig {
            project_path: project_path.to_owned(),
            cols: DEFAULT_TERMINAL_COLS,
            rows: DEFAULT_TERMINAL_ROWS,
            preset: None,
            command: String::new(),
            args: Vec::new(),
            initial_prompt: None,
        }
    }

    /// The same configuration with another terminal size.
    pub fn with_size(self, cols: u16, rows: u16) -> (r: SpawnConfig)
        ensures
            r == (SpawnConfig { cols, rows, ..self }),
    {
        SpawnConfig { cols, rows, ..self }
    }

    /// The same configuration naming a preset.
    pub fn with_preset(self, preset: &str) -> (r: SpawnConfig)
        ensures
            r.preset is Some && r.preset.unwrap()@ == preset@,
            r.project_path == self.project_path,
            r.cols == self.cols,
            r.rows == self.rows,
            r.command == self.command,
            r.args == self.args,
            r.initial_prompt == self.initial_prompt,
    {
        SpawnConfig { preset: Some(preset.to_owned()), ..self }
    }

    /// The same configuration with these extra arguments.
    pub fn with_args(self, args: Vec<String>) -> (r: SpawnConfig)
        ensures
            r == (SpawnConfig { args, ..self }),
    {
        SpawnConfig { args, ..self }
    }

    /// The same configuration with a text to write once the agent runs.
    pub fn with_initial_prompt(self, prompt: &str) -> (r: SpawnConfig)
        ensures
            r.initial_prompt is Some && r.initial_prompt.unwrap()@ == prompt@,
            r.project_path == self.project_path,
            r.cols == self.cols,
            r.rows == self.rows,
            r.preset == self.preset,
            r.command == self.command,
            r.args == self.args,
    {
        SpawnConfig { initial_prompt: Some(prompt.to_owned()), ..self }
    }

    /// The command that starting a session with this configuration
    /// launches.
    pub fn launch_command(&self) -> (r: LaunchCommand)
        ensures
            r.program@ == self.command@,
            r.args@ == self.args@,
            r.cwd@ == self.project_path@,
            r.size == (TerminalSize { cols: self.cols, rows: self.rows }),
    {
        let args = self.args.clone();
        assert(args@ =~= self.args@);
        LaunchCommand {
            program: self.command.clone(),
            args,
            cwd: self.project_path.clone(),
            size: TerminalSize::new(self.cols, self.rows),
        }
    }

    /// The same configuration running another program.
    pub fn with_command(self, command: &str) -> (r: SpawnConfig)
        ensures
            r.command@ == command@,
            r.project_path == self.project_path,
            r.cols == self.cols,
            r.rows == self.rows,
            r.preset == self.preset,
            r.args == self.args,
            r.initial_prompt == self.initial_prompt,
    {
        SpawnConfig { command: command.to_owned(), ..self }
    }
}

/// What to start under a terminal: program, arguments, working directory
/// and initial size.
#[derive(Debug, Clone)]
pub struct LaunchCommand {
    pub program: String,
    pub args: Vec<String>,
    pub cwd: String,
    pub size: TerminalSize,
}

pub open spec fn missing_path_text(p: Seq<char>) -> Seq<char> {
    "Project path does not exist: "@ + p
}

pub open spec fn not_dir_text(p: Seq<char>) -> Seq<char> {
    "Project path is not a directory: "@ + p
}

/// `c` starts the session's program with its arguments, in its project
/// directory, at its size.
pub open spec fn launches(c: LaunchCommand, s: AgentSession) -> bool {
    &&& c.program@ == s.spec_command()
    &&& c.args@ == s.spec_args()
    &&& c.cwd@ == s.spec_path()
    &&& c.size == s.spec_size()
}

/// `r` reports that launching failed with `e`.
pub open spec fn spawn_failed_with(r: Result<(), SessionError>, e: PtyError) -> bool {
    match r {
        Err(SessionError::SpawnFailed(m)) => m@ == pty_error_text(e),
        _ => false,
    }
}

/// The child's exit once killed: the exit it already had, or a kill.
pub open spec fn killed_exit(p: PtyProcess) -> Option<ProcessExit> {
    read_exit(p, ExitReason::Killed)
}

/// The child's exit once marked gone for `reason`: the exit it already had,
/// or one for `reason`, without an exit code.
pub open spec fn read_exit(p: PtyProcess, reason: ExitReason) -> Option<ProcessExit> {
    if p.spec_exit() is Some {
        p.spec_exit()
    } else {
        Some(ProcessExit { id: p.spec_id(), exit_code: None, reason })
    }
}

/// A session whose child, once running, is driven by the caller.
#[derive(Debug, Clone)]
pub struct AgentSession {
    id: AgentId,
    project_path: String,
    cols: u16,
    rows: u16,
    state: AgentState,
    process: Option<PtyProcess>,
    command: String,
    args: Vec<String>,
}

impl AgentSession {
    /// The child's state is held exactly while the session is running or
    /// stopping.
    pub closed spec fn wf(&self) -> bool {
        &&& (self.process is Some <==> (self.state == AgentState::Running || self.state
            == AgentState::Stopping))
        &&& self.process is Some ==> self.process.unwrap().wf()
    }

    pub closed spec fn spec_id(&self) -> AgentId {
        self.id
    }

    pub closed spec fn spec_path(&self) -> Seq<char> {
        self.project_path@
    }

    pub closed spec fn spec_cols(&self) -> u16 {
        self.cols
    }

    pub closed spec fn spec_rows(&self) -> u16 {
        self.rows
    }

    pub closed spec fn spec_state(&self) -> AgentState {
        self.state
    }

    pub closed spec fn spec_process(&self) -> Option<PtyProcess> {
        self.process
    }

    pub closed spec fn spec_command(&self) -> Seq<char> {
        self.command@
    }

    pub closed spec fn spec_args(&self) -> Seq<String> {
        self.args@
    }

    pub open spec fn spec_size(&self) -> TerminalSize {
        TerminalSize { cols: self.spec_cols(), rows: self.spec_rows() }
    }

    /// A running or stopping session holds its child's state.
    pub proof fn lemma_live_holds_child(&self)
        requires
            self.wf(),
        ensures
            self.spec_process() is Some <==> (self.spec_state() == AgentState::Running || self.spec_state()
                == AgentState::Stopping),
            self.spec_process() is Some ==> self.spec_process().unwrap().wf(),
    {
    }

    /// A stopped session for a project, with the default size and no
    /// program set.
    pub fn new(project_path: &str) -> (r: AgentSession)
        ensures
            r.wf(),
            r.spec_path() == project_path@,
            r.spec_cols() == DEFAULT_TERMINAL_COLS,
            r.spec_rows() == DEFAULT_TERMINAL_ROWS,
            r.spec_state() == AgentState::Stopped,
            r.spec_command().len() == 0,
            r.spec_args().len() == 0,
    {
        AgentSession {
            id: crate::ids::new_agent_id(),
            project_path: project_path.to_owned(),
            cols: DEFAULT_TERMINAL_COLS,
            rows: DEFAULT_TERMINAL_ROWS,
            state: AgentState::Stopped,
            process: None,
            command: String::new(),
            args: Vec::new(),
        }
    }

    /// A stopped session as the configuration describes it.
    pub fn with_config(config: SpawnConfig) -> (r: AgentSession)
        ensures
            r.wf(),
            r.spec_path() == config.project_path@,
            r.spec_cols() == config.cols,
            r.spec_rows() == config.rows,
            r.spec_state() == AgentState::Stopped,
            r.spec_command() == config.command@,
            r.spec_args() == config.args@,
    {
        AgentSession {
            id: crate::ids::new_agent_id(),
            project_path: config.project_path,
            cols: config.cols,
            rows: config.rows,
            state: AgentState::Stopped,
            process: None,
            command: config.command,
            args: config.args,
        }
    }

    pub fn id(&self) -> (r: AgentId)
        ensures
            r == self.spec_id(),
    {
        self.id
    }

    pub fn project_path(&self) -> (r: &str)
        ensures
            r@ == self.spec_path(),
    {
        self.project_path.as_str()
    }

    pub fn cols(&self) -> (r: u16)
        ensures
            r == self.spec_cols(),
    {
        self.cols
    }

    pub fn rows(&self) -> (r: u16)
        ensures
            r == self.spec_rows(),
    {
        self.rows
    }

    pub fn state(&self) -> (r: AgentState)
        ensures
            r == self.spec_state(),
    {
        self.state
    }

    pub fn is_running(&self) -> (r: bool)
        ensures
            r == (self.spec_state() == AgentState::Running),
    {
        self.state == AgentState::Running
    }

    /// How the child ended, once it has.
    pub fn exit_info(&self) -> (r: Option<ProcessExit>)
        ensures
            r == match self.spec_process() {
                Some(p) => p.spec_exit(),
                None => None,
            },
    {
        match self.process {
            Some(p) => p.exit_info(),
            None => None,
        }
    }

    /// First half of starting the agent: only a stopped session whose
    /// project path is an existing directory moves to `Starting` and gets
    /// the command to launch. Other sessions are left as they were.
    pub fn spawn(&mut self, path_exists: bool, path_is_dir: bool) -> (r: Result<LaunchCommand, SessionError>)
        requires
            old(self).wf(),
        ensures
            final(self).wf(),
            final(self).spec_id() == old(self).spec_id(),
            final(self).spec_path() == old(self).spec_path(),
            final(self).spec_cols() == old(self).spec_cols(),
            final(self).spec_rows() == old(self).spec_rows(),
            final(self).spec_command() == old(self).spec_command(),
            final(self).spec_args() == old(self).spec_args(),
            old(self).spec_state() != AgentState::Stopped ==> r == Err::<LaunchCommand, SessionError>(
                SessionError::AlreadyRunning,
            ) && *final(self) == *old(self),
            old(self).spec_state() == AgentState::Stopped && !path_exists ==> (r matches Err(
                SessionError::InvalidPath(m),
            ) && m@ == missing_path_text(old(self).spec_path())) && *final(self) == *old(self),
            old(self).spec_state() == AgentState::Stopped && path_exists && !path_is_dir ==> (r matches Err(
                SessionError::InvalidPath(m),
            ) && m@ == not_dir_text(old(self).spec_path())) && *final(self) == *old(self),
            old(self).spec_state() == AgentState::Stopped && path_exists && path_is_dir ==> r is Ok
                && final(self).spec_state() == AgentState::Starting && launches(r.unwrap(), *old(self)),
    {
        if self.state != AgentState::Stopped {
            return Err(SessionError::AlreadyRunning);
        }
        if !path_exists {
            let mut m = String::new();
            push_str(&mut m, "Project path does not exist: ");
            push_str(&mut m, self.project_path.as_str());
            return Err(SessionError::InvalidPath(m));
        }
        if !path_is_dir {
            let mut m = String::new();
            push_str(&mut m, "Project path is not a directory: ");
            push_str(&mut m, self.project_path.as_str());
            return Err(SessionError::InvalidPath(m));
        }
        self.state = AgentState::Starting;
        Ok(
            LaunchCommand {
                program: self.command.clone(),
                args: self.args.clone(),
                cwd: self.project_path.clone(),
                size: TerminalSize::new(self.cols, self.rows),
            },
        )
    }

    /// Second half of starting the agent, given what launching the child
    /// gave: on success the session runs; on failure it is stopped again
    /// and the failure is reported as `SpawnFailed`.
    pub fn spawn_finished(&mut self, launched: Result<(), PtyError>) -> (r: Result<(), SessionError>)
        requires
            old(self).wf(),
            old(self).spec_state() == AgentState::Starting,
        ensures
            final(self).wf(),
            final(self).spec_id() == old(self).spec_id(),
            final(self).spec_path() == old(self).spec_path(),
            final(self).spec_cols() == old(self).spec_cols(),
            final(self).spec_rows() == old(self).spec_rows(),
            final(self).spec_command() == old(self).spec_command(),
            final(self).spec_args() == old(self).spec_args(),
            launched is Ok ==> r is Ok && final(self).spec_state() == AgentState::Running
                && final(self).spec_process().unwrap().spec_exit() is None
                && final(self).spec_process().unwrap().spec_size() == old(self).spec_size(),
            launched is Err ==> spawn_failed_with(r, launched->Err_0) && final(self).spec_state()
                == AgentState::Stopped,
    {
        match launched {
            Ok(()) => {
                self.process = Some(PtyProcess::started(TerminalSize::new(self.cols, self.rows)));
                self.state = AgentState::Running;
                Ok(())
            },
            Err(e) => {
                self.state = AgentState::Stopped;
                Err(SessionError::SpawnFailed(e.to_string()))
            },
        }
    }

    /// May input be written: only to a child that is held and not gone.
    pub fn write_input(&self) -> (r: Result<(), SessionError>)
        requires
            self.wf(),
        ensures
            match self.spec_process() {
                None => r == Err::<(), SessionError>(SessionError::NotRunning),
                Some(p) => if p.spec_exit() is Some {
                    r == Err::<(), SessionError>(SessionError::PtyError(PtyError::ProcessExited))
                } else {
                    r is Ok
                },
            },
    {
        match self.process {
            Some(p) => match p.check_write() {
                Ok(()) => Ok(()),
                Err(e) => Err(SessionError::PtyError(e)),
            },
            None => Err(SessionError::NotRunning),
        }
    }

    /// Records a resize, given what the terminal answered; the session's
    /// size changes only when the resize took effect.
    pub fn resize(&mut self, cols: u16, rows: u16, outcome: Result<(), String>) -> (r: Result<(), SessionError>)
        requires
            old(self).wf(),
        ensures
            final(self).wf(),
            final(self).spec_id() == old(self).spec_id(),
            final(self).spec_path() == old(self).spec_path(),
            final(self).spec_state() == old(self).spec_state(),
            final(self).spec_command() == old(self).spec_command(),
            final(self).spec_args() == old(self).spec_args(),
            (final(self).spec_process() is Some) == (old(self).spec_process() is Some),
            old(self).spec_process() is Some ==> final(self).spec_process().unwrap().spec_exit()
                == old(self).spec_process().unwrap().spec_exit(),
            r is Ok <==> (old(self).spec_process() is Some && old(self).spec_process().unwrap().spec_exit() is None
                && outcome is Ok),
            r is Ok ==> final(self).spec_cols() == cols && final(self).spec_rows() == rows,
            r is Err ==> final(self).spec_cols() == old(self).spec_cols() && final(self).spec_rows()
                == old(self).spec_rows(),
            old(self).spec_process() is None ==> r == Err::<(), SessionError>(SessionError::NotRunning),
    {
        match self.process {
            Some(p) => {
                let mut q = p;
                let res = q.resize(cols, rows, outcome);
                self.process = Some(q);
                match res {
                    Ok(()) => {
                        self.cols = cols;
                        self.rows = rows;
                        Ok(())
                    },
                    Err(e) => Err(SessionError::PtyError(e)),
                }
            },
            None => Err(SessionError::NotRunning),
        }
    }

    /// Kill on request: a running session moves to `Stopping`, and its
    /// child counts as gone. Idempotent; other sessions are unchanged.
    pub fn kill(&mut self) -> (r: Result<(), SessionError>)
        requires
            old(self).wf(),
        ensures
            r is Ok,
            final(self).wf(),
            final(self).spec_id() == old(self).spec_id(),
            final(self).spec_path() == old(self).spec_path(),
            final(self).spec_cols() == old(self).spec_cols(),
            final(self).spec_rows() == old(self).spec_rows(),
            final(self).spec_state() == (if old(self).spec_state() == AgentState::Running {
                AgentState::Stopping
            } else {
                old(self).spec_state()
            }),
            old(self).spec_process() is Some ==> final(self).spec_process() is Some
                && final(self).spec_process().unwrap().spec_exit() is Some,
            old(self).spec_process() is Some ==> final(self).spec_process().unwrap().spec_exit() == killed_exit(
                old(self).spec_process().unwrap(),
            ),
            old(self).spec_process() is None ==> final(self).spec_process() is None,
    {
        match self.process {
            Some(p) => {
                let mut q = p;
                let _ = q.kill();
                self.process = Some(q);
                if self.state == AgentState::Running {
                    self.state = AgentState::Stopping;
                }
            },
            None => {},
        }
        Ok(())
    }

    /// Records what a read of the child's terminal gave.
    pub fn record_read(&mut self, o: &ReadOutcome)
        requires
            old(self).wf(),
        ensures
            final(self).wf(),
            final(self).spec_id() == old(self).spec_id(),
            final(self).spec_path() == old(self).spec_path(),
            final(self).spec_cols() == old(self).spec_cols(),
            final(self).spec_rows() == old(self).spec_rows(),
            final(self).spec_state() == old(self).spec_state(),
            (final(self).spec_process() is Some) == (old(self).spec_process() is Some),
            old(self).spec_process() is Some && crate::pty::exit_of_read(*o) is Some
                ==> final(self).spec_process().unwrap().spec_exit() is Some,
            old(self).spec_process() is Some && crate::pty::exit_of_read(*o) is Some
                ==> final(self).spec_process().unwrap().spec_exit() == read_exit(
                old(self).spec_process().unwrap(),
                crate::pty::exit_of_read(*o).unwrap(),
            ),
    {
        match self.process {
            Some(p) => {
                let mut q = p;
                q.record_read(o);
                self.process = Some(q);
            },
            None => {},
        }
    }

    /// Once the child is gone: the session stops, lets go of the child and
    /// returns the one exit notice. Otherwise nothing changes.
    pub fn poll_exit(&mut self) -> (r: Option<AgentExit>)
        requires
            old(self).wf(),
        ensures
            final(self).wf(),
            final(self).spec_id() == old(self).spec_id(),
            final(self).spec_path() == old(self).spec_path(),
            final(self).spec_cols() == old(self).spec_cols(),
            final(self).spec_rows() == old(self).spec_rows(),
            r is Some <==> (old(self).spec_process() is Some && old(self).spec_process().unwrap().spec_exit() is Some),
            r is Some ==> final(self).spec_state() == AgentState::Stopped && final(self).spec_process() is None
                && r.unwrap().session_id == old(self).spec_id()
                && r.unwrap().exit_code == old(self).spec_process().unwrap().spec_exit().unwrap().exit_code
                && r.unwrap().reason == old(self).spec_process().unwrap().spec_exit().unwrap().reason,
            r is None ==> *final(self) == *old(self),
    {
        match self.process {
            Some(p) => match p.exit_info() {
                Some(info) => {
                    self.state = AgentState::Stopped;
                    self.process = None;
                    Some(AgentExit { session_id: self.id, exit_code: info.exit_code, reason: info.reason })
                },
                None => None,
            },
            None => None,
        }
    }
}

} // verus!
