//! Error kinds and their exit codes and user-facing texts.
use vstd::prelude::*;

verus! {

/// Whether an I/O error is "not found" (command or file missing) or anything else.
#[derive(Copy, Clone, PartialEq, Eq, Structural, Debug)]
pub enum IoErrorKind {
    NotFound,
    Other,
}

/// What the library reads of an I/O error: its kind and its message.
#[derive(Clone, Debug)]
pub struct IoErrorInfo {
    pub kind: IoErrorKind,
    pub message: String,
}

/// Exit code for an I/O error: 127 for "not found", 1 otherwise.
pub open spec fn exit_code_for_kind(kind: IoErrorKind) -> u8 {
    match kind {
        IoErrorKind::NotFound => 127,
        IoErrorKind::Other => 1,
    }
}

/// Map an I/O error to a process exit code: 127 for not found, 1 for all others.
pub fn exit_code_for_io_error(e: &IoErrorInfo) -> (code: u8)
    ensures
        code == exit_code_for_kind(e.kind),
{
    match e.kind {
        IoErrorKind::NotFound => 127,
        IoErrorKind::Other => 1,
    }
}

/// Errors of the fork workflow.
#[derive(Clone, Debug)]
pub enum ForkError {
    Io(IoErrorInfo),
    Message(String),
}

/// Errors of the toolchain workflow.
#[derive(Clone, Debug)]
pub enum ToolchainError {
    Io(IoErrorInfo),
    Message(String),
}

impl ForkError {
    /// Wrap an I/O error, kept as read: its kind and its message.
    pub fn from_io(e: IoErrorInfo) -> (r: Self)
        ensures
            r == ForkError::Io(e),
    {
        ForkError::Io(e)
    }
}

impl ToolchainError {
    /// Wrap an I/O error, kept as read: its kind and its message.
    pub fn from_io(e: IoErrorInfo) -> (r: Self)
        ensures
            r == ToolchainError::Io(e),
    {
        ToolchainError::Io(e)
    }
}

/// Exit code for a fork error (same mapping as for I/O errors; messages give 1).
pub fn exit_code_for_fork_error(e: &ForkError) -> (code: u8)
    ensures
        code == match e {
            ForkError::Io(i) => exit_code_for_kind(i.kind),
            ForkError::Message(_) => 1u8,
        },
{
    match e {
        ForkError::Io(ioe) => exit_code_for_io_error(ioe),
        ForkError::Message(_) => 1,
    }
}

/// Exit code for a toolchain error (same mapping as for I/O errors; messages give 1).
pub fn exit_code_for_toolchain_error(e: &ToolchainError) -> (code: u8)
    ensures
        code == match e {
            ToolchainError::Io(i) => exit_code_for_kind(i.kind),
            ToolchainError::Message(_) => 1u8,
        },
{
    match e {
        ToolchainError::Io(ioe) => exit_code_for_io_error(ioe),
        ToolchainError::Message(_) => 1,
    }
}

/// User-facing text of a fork error: the I/O message or the message itself.
pub fn display_for_fork_error(e: &ForkError) -> (s: String)
    ensures
        s@ == match e {
            ForkError::Io(i) => i.message@,
            ForkError::Message(m) => m@,
        },
{
    match e {
        ForkError::Io(ioe) => ioe.message.clone(),
        ForkError::Message(s) => s.clone(),
    }
}

/// User-facing text of a toolchain error: the I/O message or the message itself.
pub fn display_for_toolchain_error(e: &ToolchainError) -> (s: String)
    ensures
        s@ == match e {
            ToolchainError::Io(i) => i.message@,
            ToolchainError::Message(m) => m@,
        },
{
    match e {
        ToolchainError::Io(ioe) => ioe.message.clone(),
        ToolchainError::Message(s) => s.clone(),
    }
}

} // verus!
