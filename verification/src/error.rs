//! Shared error taxonomy with deterministic exit codes.

use vstd::prelude::*;

verus! {

/// Enumerates high-level error domains surfaced by the core.
#[derive(Debug)]
pub enum SynsyuError {
    /// A required external command is not installed.
    CommandMissing { command: String },
    /// An external command ran but reported failure.
    CommandFailure { command: String, status: i32, stderr: String },
    /// Invalid configuration supplied by the caller.
    Config(String),
    /// Transport failure or non-success status after exhausting retries.
    Network(String),
    /// Malformed response body or command output.
    Serialization(String),
    /// Failure creating or writing files.
    Filesystem(String),
    /// Task scheduling or other runtime failure.
    Runtime(String),
    /// An I/O failure outside the categories above, carried as text.
    Io(String),
}

impl SynsyuError {
    /// The process exit code that each error domain maps to.
    pub open spec fn spec_exit_code(&self) -> u8 {
        match self {
            SynsyuError::CommandMissing { .. } => 10,
            SynsyuError::CommandFailure { .. } => 11,
            SynsyuError::Config(_) => 20,
            SynsyuError::Network(_) => 30,
            SynsyuError::Serialization(_) => 31,
            SynsyuError::Filesystem(_) => 40,
            SynsyuError::Runtime(_) => 50,
            SynsyuError::Io(_) => 41,
        }
    }

    /// Map the error category to a deterministic exit code.
    pub fn exit_code(&self) -> (code: u8)
        ensures
            code == self.spec_exit_code(),
    {
        match self {
            SynsyuError::CommandMissing { .. } => 10,
            SynsyuError::CommandFailure { .. } => 11,
            SynsyuError::Config(_) => 20,
            SynsyuError::Network(_) => 30,
            SynsyuError::Serialization(_) => 31,
            SynsyuError::Filesystem(_) => 40,
            SynsyuError::Runtime(_) => 50,
            SynsyuError::Io(_) => 41,
        }
    }
}

} // verus!
