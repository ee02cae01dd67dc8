//! Opening a port: the fixed sequence of operating-system calls each backend
//! makes, and the decisions taken on their results.
//!
//! A port is either fully configured or does not exist: the caller performs
//! the calls one at a time, reports each result, and is told to go on, to
//! hand out the configured port, or to give up (releasing the device if it
//! was already acquired) with an error that names the failing call.
use vstd::prelude::*;

verus! {

/// An operating-system call made while opening a port.
#[derive(Debug, Clone, Copy, PartialEq, Eq, Structural)]
pub enum OsCall {
    /// TTY: open the device read-write, without making it the controlling terminal.
    Open,
    /// TTY: take a non-blocking exclusive advisory lock.
    Flock,
    /// TTY: mark the descriptor close-on-exec.
    Fcntl,
    /// TTY: read the current terminal attributes.
    Tcgetattr,
    /// TTY: set the line speed in the attributes.
    Cfsetspeed,
    /// TTY: apply the raw-mode attributes, flushing pending data.
    Tcsetattr,
    /// COM: open the device exclusively, for overlapped I/O.
    CreateFileA,
    /// COM: apply the device control block (baud rate, byte size).
    SetCommState,
    /// COM: apply the communication timeouts.
    SetCommTimeouts,
}

/// Why a port could not be opened.
#[derive(Debug, Clone, Copy, PartialEq, Eq, Structural)]
pub enum OpenError {
    /// The TTY backend supports no such line speed; nothing was touched.
    UnsupportedBaud { baud: u32 },
    /// An operating-system call failed with the given error code.
    Os { call: OsCall, code: u32 },
}

/// The two backends.
#[derive(Debug, Clone, Copy, PartialEq, Eq, Structural)]
pub enum Backend {
    /// POSIX terminal devices.
    Tty,
    /// Win32 communication ports.
    Com,
}

/// The calls that open and configure a port of backend `b`, in order. The
/// first acquires the device; the rest configure it.
pub open spec fn open_calls(b: Backend) -> Seq<OsCall> {
    match b {
        Backend::Tty => seq![
            OsCall::Open,
            OsCall::Flock,
            OsCall::Fcntl,
            OsCall::Tcgetattr,
            OsCall::Cfsetspeed,
            OsCall::Tcsetattr,
        ],
        Backend::Com => seq![OsCall::CreateFileA, OsCall::SetCommState, OsCall::SetCommTimeouts],
    }
}

/// The call at position `i` of backend `b`'s open sequence.
pub fn open_call(b: Backend, i: usize) -> (r: Option<OsCall>)
    ensures
        r == if i < open_calls(b).len() {
            Some(open_calls(b)[i as int])
        } else {
            None
        },
{
    match b {
        Backend::Tty => match i {
            0 => Some(OsCall::Open),
            1 => Some(OsCall::Flock),
            2 => Some(OsCall::Fcntl),
            3 => Some(OsCall::Tcgetattr),
            4 => Some(OsCall::Cfsetspeed),
            5 => Some(OsCall::Tcsetattr),
            _ => None,
        },
        Backend::Com => match i {
            0 => Some(OsCall::CreateFileA),
            1 => Some(OsCall::SetCommState),
            2 => Some(OsCall::SetCommTimeouts),
            _ => None,
        },
    }
}

/// What the caller is to do next while opening a port.
#[derive(Debug, Clone, Copy, PartialEq, Eq, Structural)]
pub enum OpenAction {
    /// Make this call and report its result.
    Call(OsCall),
    /// Every call succeeded: the port is fully configured.
    Ready,
    /// A call failed: return `error`, closing the device first if `release`.
    Abort { error: OpenError, release: bool },
}

/// The progress of opening one port.
pub struct OpenSession {
    backend: Backend,
    done: usize,
}

impl OpenSession {
    /// The backend whose sequence this session follows.
    pub closed spec fn backend(&self) -> Backend {
        self.backend
    }

    /// How many calls of the sequence have succeeded.
    pub closed spec fn done(&self) -> nat {
        self.done as nat
    }

    /// No more calls have succeeded than the sequence holds.
    pub open spec fn wf(&self) -> bool {
        self.done() <= open_calls(self.backend()).len()
    }

    /// The action due once `done` calls of backend `b` have succeeded.
    pub open spec fn action_after(b: Backend, done: nat) -> OpenAction {
        if done < open_calls(b).len() {
            OpenAction::Call(open_calls(b)[done as int])
        } else {
            OpenAction::Ready
        }
    }

    /// Starts opening a port of backend `backend`; the action returned is
    /// the first call of its sequence.
    pub fn new(backend: Backend) -> (r: (OpenSession, OpenAction))
        ensures
            r.0.wf(),
            r.0.backend() == backend,
            r.0.done() == 0,
            r.1 == OpenAction::Call(open_calls(backend)[0]),
    {
        let first = match open_call(backend, 0) {
            Some(c) => c,
            None => OsCall::Open,
        };
        (OpenSession { backend, done: 0 }, OpenAction::Call(first))
    }

    /// Records the result of the call in flight and says what to do next.
    ///
    /// On success the next call follows, or `Ready` after the last one. On
    /// failure the open is abandoned with an error naming the call and its
    /// code; the device is to be released exactly when the call that
    /// acquired it had already succeeded. Once every call has succeeded the
    /// session stays `Ready`.
    pub fn step(&mut self, result: Result<(), u32>) -> (a: OpenAction)
        requires
            old(self).wf(),
        ensures
            final(self).wf(),
            final(self).backend() == old(self).backend(),
            ({
                let b = old(self).backend();
                let n = old(self).done();
                if n == open_calls(b).len() {
                    final(self).done() == n && a == OpenAction::Ready
                } else {
                    match result {
                        Ok(()) => final(self).done() == n + 1 && a == Self::action_after(b, n + 1),
                        Err(code) => final(self).done() == n && a == (OpenAction::Abort {
                            error: OpenError::Os { call: open_calls(b)[n as int], code },
                            release: n > 0,
                        }),
                    }
                }
            }),
    {
        let call = match open_call(self.backend, self.done) {
            Some(c) => c,
            None => {
                return OpenAction::Ready;
            },
        };
        match result {
            Ok(()) => {
                self.done = self.done + 1;
                match open_call(self.backend, self.done) {
                    Some(next) => OpenAction::Call(next),
                    None => OpenAction::Ready,
                }
            },
            Err(code) => OpenAction::Abort {
                error: OpenError::Os { call, code },
                release: self.done > 0,
            },
        }
    }
}

} // verus!
