//! One daemon per configuration directory: what a failed lock means and what
//! the pid file holds.

use crate::config::error::labelled;
use crate::text::{decimal, decimal_spec};
use vstd::prelude::*;

verus! {

/// Why the daemon did not get its pid file.
#[derive(Debug)]
pub enum PidLockError {
    AlreadyRunning(String),
    Open { path: String, source: String },
    Write { path: String, source: String },
}

impl PidLockError {
    /// The text shown to the user.
    pub open spec fn message_spec(self) -> Seq<char> {
        match self {
            PidLockError::AlreadyRunning(path) =>
                "another mdya MCP daemon is already running for this config dir (lock held on "@
                + path@ + ")"@,
            PidLockError::Open { path, source } => "open pid file "@ + path@ + ": "@ + source@,
            PidLockError::Write { path, source } => "write pid file "@ + path@ + ": "@ + source@,
        }
    }

    /// The text shown to the user.
    pub fn message(&self) -> (text: String)
        ensures
            text@ == self.message_spec(),
    {
        proof {
            reveal_strlit("");
        }
        match self {
            PidLockError::AlreadyRunning(path) => labelled(
                "another mdya MCP daemon is already running for this config dir (lock held on ",
                path,
                ")",
                "",
            ),
            PidLockError::Open { path, source } => labelled("open pid file ", path, ": ", source),
            PidLockError::Write { path, source } => labelled(
                "write pid file ",
                path,
                ": ",
                source,
            ),
        }
    }
}

/// How an attempt to take the lock without waiting went.
#[derive(Debug)]
pub enum LockAttempt {
    Taken,
    /// Another process holds the lock.
    WouldBlock,
    Failed(String),
}

/// Whether the daemon may start: only where the lock was taken. A lock that
/// another process holds means that a daemon is running.
pub fn lock_exclusive(path: &str, attempt: LockAttempt) -> (result: Result<(), PidLockError>)
    ensures
        match attempt {
            LockAttempt::Taken => result is Ok,
            LockAttempt::WouldBlock => result matches Err(PidLockError::AlreadyRunning(p)) && p@
                == path@,
            LockAttempt::Failed(t) => result matches Err(PidLockError::Open { path: p, source: s })
                && p@ == path@ && s == t,
        },
{
    match attempt {
        LockAttempt::Taken => Ok(()),
        LockAttempt::WouldBlock => Err(PidLockError::AlreadyRunning(path.to_string())),
        LockAttempt::Failed(source) => Err(PidLockError::Open { path: path.to_string(), source }),
    }
}

/// What the pid file of a process holds: its id in decimal.
pub fn pid_file_text(pid: u32) -> (text: String)
    ensures
        text@ == decimal_spec(pid as nat),
{
    decimal(pid as u64)
}

} // verus!
