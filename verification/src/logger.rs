//! Log severity levels used by the host's logging layer.
//!
//! The logger itself writes to stderr and files and so lives with the
//! host program; only the level taxonomy and its textual form are core
//! data.

use vstd::prelude::*;

verus! {

/// Structured log level for core events.
#[derive(Copy, Clone, Eq, PartialEq, Structural)]
pub enum LogLevel {
    Info,
    Warn,
    Error,
    Debug,
}

impl LogLevel {
    /// The label each level prints as.
    pub open spec fn spec_label(self) -> Seq<char> {
        match self {
            LogLevel::Info => "INFO"@,
            LogLevel::Warn => "WARN"@,
            LogLevel::Error => "ERROR"@,
            LogLevel::Debug => "DEBUG"@,
        }
    }

    /// Render the level as its log label.
    pub fn as_str(self) -> (r: &'static str)
        ensures
            r@ == self.spec_label(),
    {
        match self {
            LogLevel::Info => "INFO",
            LogLevel::Warn => "WARN",
            LogLevel::Error => "ERROR",
            LogLevel::Debug => "DEBUG",
        }
    }
}

} // verus!
