//! Log severities and the filtering decision of the logging sink; the
//! sink itself, with its file handling, lives outside the library.

use vstd::prelude::*;

verus! {

/// Severity of a log message, least severe first.
#[derive(Clone, Copy, Debug, PartialEq, Eq, Structural)]
pub enum LogLevel {
    Debug,
    Info,
    Warning,
    Error,
}

/// Numeric rank of a severity, `Debug` lowest.
pub open spec fn severity_rank(l: LogLevel) -> u8 {
    match l {
        LogLevel::Debug => 0,
        LogLevel::Info => 1,
        LogLevel::Warning => 2,
        LogLevel::Error => 3,
    }
}

impl LogLevel {
    /// The numeric rank of this severity.
    pub fn rank(&self) -> (r: u8)
        ensures
            r == severity_rank(*self),
    {
        match self {
            LogLevel::Debug => 0,
            LogLevel::Info => 1,
            LogLevel::Warning => 2,
            LogLevel::Error => 3,
        }
    }

    /// The conventional upper-case tag of this severity.
    pub fn as_str(&self) -> (r: &'static str)
        ensures
            r@ == self.spec_tag(),
    {
        match self {
            LogLevel::Debug => "DEBUG",
            LogLevel::Info => "INFO",
            LogLevel::Warning => "WARN",
            LogLevel::Error => "ERROR",
        }
    }

    pub open spec fn spec_tag(&self) -> Seq<char> {
        match self {
            LogLevel::Debug => "DEBUG"@,
            LogLevel::Info => "INFO"@,
            LogLevel::Warning => "WARN"@,
            LogLevel::Error => "ERROR"@,
        }
    }

    /// Whether a message of this severity passes a sink whose threshold
    /// is `threshold`.
    pub fn passes(&self, threshold: LogLevel) -> (r: bool)
        ensures
            r == (severity_rank(*self) >= severity_rank(threshold)),
    {
        self.rank() >= threshold.rank()
    }
}

} // verus!
