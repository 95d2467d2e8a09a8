//! What the bridge knows and decides about one child under a
//! pseudo-terminal: its size, whether it exited and why, and what the
//! reader does after each read. The terminal itself is opened, read and
//! written by the caller.

use vstd::prelude::*;
use crate::protocol::{AgentId, DEFAULT_TERMINAL_COLS, DEFAULT_TERMINAL_ROWS};
use crate::text::push_str;

verus! {

/// Size of a terminal window.
#[derive(Debug, Clone, Copy, PartialEq, Eq, Structural)]
pub struct TerminalSize {
    pub cols: u16,
    pub rows: u16,
}

impl TerminalSize {
    pub fn new(cols: u16, rows: u16) -> (r: TerminalSize)
        ensures
            r.cols == cols,
            r.rows == rows,
    {
        TerminalSize { cols, rows }
    }
}

impl Default for TerminalSize {
    /// 80 columns by 24 rows.
    fn default() -> (r: TerminalSize)
        ensures
            r.cols == DEFAULT_TERMINAL_COLS,
            r.rows == DEFAULT_TERMINAL_ROWS,
    {
        TerminalSize { cols: DEFAULT_TERMINAL_COLS, rows: DEFAULT_TERMINAL_ROWS }
    }
}

/// Output read from a terminal.
#[derive(Debug, Clone)]
pub struct PtyOutput {
    pub data: Vec<u8>,
}

/// Why a child is considered gone.
#[derive(Debug, Clone, Copy, PartialEq, Eq, Structural)]
pub enum ExitReason {
    /// The terminal reached end of file.
    Normal,
    /// The child was killed by a signal.
    Signal,
    /// The child was killed on request.
    Killed,
    /// Reading failed.
    Unknown,
}

impl ExitReason {
    /// The reason's name, as reported in exit events.
    pub fn name(&self) -> (r: &'static str)
        ensures
            r@ == reason_name(*self),
    {
        match self {
            ExitReason::Normal => "Normal",
            ExitReason::Signal => "Signal",
            ExitReason::Killed => "Killed",
            ExitReason::Unknown => "Unknown",
        }
    }
}

pub open spec fn reason_name(r: ExitReason) -> Seq<char> {
    match r {
        ExitReason::Normal => "Normal"@,
        ExitReason::Signal => "Signal"@,
        ExitReason::Killed => "Killed"@,
        ExitReason::Unknown => "Unknown"@,
    }
}

/// How a child ended.
#[derive(Debug, Clone, Copy, PartialEq, Eq, Structural)]
pub struct ProcessExit {
    pub id: AgentId,
    pub exit_code: Option<i32>,
    pub reason: ExitReason,
}

/// Failures of terminal operations.
#[derive(Debug, Clone, PartialEq)]
pub enum PtyError {
    OpenFailed(String),
    SpawnFailed(String),
    WriteFailed(String),
    ReadFailed(String),
    ResizeFailed(String),
    ProcessNotFound(AgentId),
    ProcessExited,
    SystemError(String),
}

impl PtyError {
    /// Human-readable description of the error.
    pub fn to_string(&self) -> (r: String)
        ensures
            r@ == pty_error_text(*self),
    {
        let mut out = String::new();
        match self {
            PtyError::OpenFailed(m) => {
                push_str(&mut out, "Failed to open PTY: ");
                push_str(&mut out, m.as_str());
            },
            PtyError::SpawnFailed(m) => {
                push_str(&mut out, "Failed to spawn process: ");
                push_str(&mut out, m.as_str());
            },
            PtyError::WriteFailed(m) => {
                push_str(&mut out, "Failed to write to PTY: ");
                push_str(&mut out, m.as_str());
            },
            PtyError::ReadFailed(m) => {
                push_str(&mut out, "Failed to read from PTY: ");
                push_str(&mut out, m.as_str());
            },
            PtyError::ResizeFailed(m) => {
                push_str(&mut out, "Failed to resize PTY: ");
                push_str(&mut out, m.as_str());
            },
            PtyError::ProcessNotFound(id) => {
                push_str(&mut out, "Process not found: ");
                push_str(&mut out, crate::ids::format_uuid(*id).as_str());
            },
            PtyError::ProcessExited => {
                push_str(&mut out, "Process already exited");
            },
            PtyError::SystemError(m) => {
                push_str(&mut out, "PTY system error: ");
                push_str(&mut out, m.as_str());
            },
        }
        out
    }
}

pub open spec fn pty_error_text(e: PtyError) -> Seq<char> {
    match e {
        PtyError::OpenFailed(m) => "Failed to open PTY: "@ + m@,
        PtyError::SpawnFailed(m) => "Failed to spawn process: "@ + m@,
        PtyError::WriteFailed(m) => "Failed to write to PTY: "@ + m@,
        PtyError::ReadFailed(m) => "Failed to read from PTY: "@ + m@,
        PtyError::ResizeFailed(m) => "Failed to resize PTY: "@ + m@,
        PtyError::ProcessNotFound(id) => "Process not found: "@ + crate::ids::uuid_text(id),
        PtyError::ProcessExited => "Process already exited"@,
        PtyError::SystemError(m) => "PTY system error: "@ + m@,
    }
}

/// What one read of the terminal gave.
#[derive(Debug, Clone, PartialEq)]
pub enum ReadOutcome {
    /// Some bytes; an empty read is end of file.
    Bytes(Vec<u8>),
    /// The read would block.
    WouldBlock,
    /// The read failed otherwise.
    Failed,
    /// The handle asked the reader to stop.
    Shutdown,
}

/// What the reader does next.
#[derive(Debug, Clone, Copy, PartialEq, Eq, Structural)]
pub enum ReaderAction {
    /// Hand the bytes on, then read again.
    Forward,
    /// Wait a little, then read again.
    Retry,
    /// Stop reading.
    Stop,
}

/// The reader's decision after a read: bytes are handed on, a blocked
/// read is retried, and end of file, a failure or a shutdown stop it.
pub fn reader_action(o: &ReadOutcome) -> (r: ReaderAction)
    ensures
        r == match o {
            ReadOutcome::Bytes(b) => if b@.len() > 0 {
                ReaderAction::Forward
            } else {
                ReaderAction::Stop
            },
            ReadOutcome::WouldBlock => ReaderAction::Retry,
            _ => ReaderAction::Stop,
        },
{
    match o {
        ReadOutcome::Bytes(b) => if b.len() > 0 {
            ReaderAction::Forward
        } else {
            ReaderAction::Stop
        },
        ReadOutcome::WouldBlock => ReaderAction::Retry,
        _ => ReaderAction::Stop,
    }
}

/// The exit that a read outcome records, if any: end of file is a normal
/// exit and a failed read an unknown one.
pub open spec fn exit_of_read(o: ReadOutcome) -> Option<ExitReason> {
    match o {
        ReadOutcome::Bytes(b) => if b@.len() == 0 {
            Some(ExitReason::Normal)
        } else {
            None
        },
        ReadOutcome::Failed => Some(ExitReason::Unknown),
        _ => None,
    }
}

/// The state of one child under a terminal.
#[derive(Debug, Clone, Copy)]
pub struct PtyProcess {
    id: AgentId,
    size: TerminalSize,
    exited: bool,
    exit_info: Option<ProcessExit>,
}

impl PtyProcess {
    /// Exit information is present exactly when the child is gone, and it
    /// names this process.
    pub closed spec fn wf(&self) -> bool {
        &&& self.exited == self.exit_info is Some
        &&& self.exit_info is Some ==> self.exit_info.unwrap().id == self.id
    }

    pub closed spec fn spec_id(&self) -> AgentId {
        self.id
    }

    pub closed spec fn spec_size(&self) -> TerminalSize {
        self.size
    }

    pub closed spec fn spec_exit(&self) -> Option<ProcessExit> {
        self.exit_info
    }

    /// The state of a child that was just started with this size.
    pub fn started(size: TerminalSize) -> (r: PtyProcess)
        ensures
            r.wf(),
            r.spec_size() == size,
            r.spec_exit() is None,
    {
        PtyProcess { id: crate::ids::new_agent_id(), size, exited: false, exit_info: None }
    }

    pub fn id(&self) -> (r: AgentId)
        ensures
            r == self.spec_id(),
    {
        self.id
    }

    pub fn size(&self) -> (r: TerminalSize)
        ensures
            r == self.spec_size(),
    {
        self.size
    }

    pub fn has_exited(&self) -> (r: bool)
        requires
            self.wf(),
        ensures
            r == self.spec_exit() is Some,
    {
        self.exited
    }

    pub fn exit_info(&self) -> (r: Option<ProcessExit>)
        ensures
            r == self.spec_exit(),
    {
        self.exit_info
    }

    /// May input be written: not once the child is gone.
    pub fn check_write(&self) -> (r: Result<(), PtyError>)
        requires
            self.wf(),
        ensures
            self.spec_exit() is Some ==> r == Err::<(), PtyError>(PtyError::ProcessExited),
            self.spec_exit() is None ==> r is Ok,
    {
        if self.exited {
            Err(PtyError::ProcessExited)
        } else {
            Ok(())
        }
    }

    /// Records a resize, given what the terminal answered: a gone child is
    /// not resized, and a failed resize keeps the old size.
    pub fn resize(&mut self, cols: u16, rows: u16, outcome: Result<(), String>) -> (r: Result<(), PtyError>)
        requires
            old(self).wf(),
        ensures
            final(self).wf(),
            final(self).spec_id() == old(self).spec_id(),
            final(self).spec_exit() == old(self).spec_exit(),
            old(self).spec_exit() is Some ==> r == Err::<(), PtyError>(PtyError::ProcessExited)
                && final(self).spec_size() == old(self).spec_size(),
            old(self).spec_exit() is None ==> match outcome {
                Ok(()) => r is Ok && final(self).spec_size() == TerminalSize { cols, rows },
                Err(m) => r == Err::<(), PtyError>(PtyError::ResizeFailed(m))
                    && final(self).spec_size() == old(self).spec_size(),
            },
    {
        if self.exited {
            return Err(PtyError::ProcessExited);
        }
        match outcome {
            Ok(()) => {
                self.size = TerminalSize::new(cols, rows);
                Ok(())
            },
            Err(m) => Err(PtyError::ResizeFailed(m)),
        }
    }

    /// Marks the child as gone with `reason`, unless it already is: exit
    /// information, once set, does not change.
    fn mark_exited(&mut self, reason: ExitReason)
        requires
            old(self).wf(),
        ensures
            final(self).wf(),
            final(self).spec_id() == old(self).spec_id(),
            final(self).spec_size() == old(self).spec_size(),
            final(self).spec_exit() == (if old(self).spec_exit() is Some {
                old(self).spec_exit()
            } else {
                Some(ProcessExit { id: old(self).spec_id(), exit_code: None, reason })
            }),
    {
        if !self.exited {
            self.exited = true;
            self.exit_info = Some(ProcessExit { id: self.id, exit_code: None, reason });
        }
    }

    /// Kill on request: idempotent; the child counts as gone, killed unless
    /// it had already exited.
    pub fn kill(&mut self) -> (r: Result<(), PtyError>)
        requires
            old(self).wf(),
        ensures
            r is Ok,
            final(self).wf(),
            final(self).spec_id() == old(self).spec_id(),
            final(self).spec_size() == old(self).spec_size(),
            final(self).spec_exit() == (if old(self).spec_exit() is Some {
                old(self).spec_exit()
            } else {
                Some(ProcessExit { id: old(self).spec_id(), exit_code: None, reason: ExitReason::Killed })
            }),
    {
        self.mark_exited(ExitReason::Killed);
        Ok(())
    }

    /// Records what a read gave: end of file and failures mark the child as
    /// gone, other outcomes change nothing.
    pub fn record_read(&mut self, o: &ReadOutcome)
        requires
            old(self).wf(),
        ensures
            final(self).wf(),
            final(self).spec_id() == old(self).spec_id(),
            final(self).spec_size() == old(self).spec_size(),
            final(self).spec_exit() == (match exit_of_read(*o) {
                Some(reason) => if old(self).spec_exit() is Some {
                    old(self).spec_exit()
                } else {
                    Some(ProcessExit { id: old(self).spec_id(), exit_code: None, reason })
                },
                None => old(self).spec_exit(),
            }),
    {
        match o {
            ReadOutcome::Bytes(b) => if b.len() == 0 {
                self.mark_exited(ExitReason::Normal);
            },
            ReadOutcome::Failed => self.mark_exited(ExitReason::Unknown),
            _ => {},
        }
    }
}

} // verus!
