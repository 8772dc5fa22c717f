//! Log levels of the host interface.
use vstd::prelude::*;

use crate::error::ErrorSeverity;

verus! {

/// The levels at which the host is told of errors, with the numeric tags
/// `Debug = 0`, `Info = 1`, `Warning = 2` and `Error = 3`.
#[derive(Debug, Copy, Clone, PartialEq, Eq, Structural)]
pub enum LogLevel {
    Debug,
    Info,
    Warning,
    Error,
}

impl LogLevel {
    pub open spec fn tag(self) -> int {
        match self {
            LogLevel::Debug => 0,
            LogLevel::Info => 1,
            LogLevel::Warning => 2,
            LogLevel::Error => 3,
        }
    }

    pub open spec fn spec_from_severity(severity: ErrorSeverity) -> LogLevel {
        match severity {
            ErrorSeverity::Other => LogLevel::Info,
            ErrorSeverity::Low => LogLevel::Debug,
            ErrorSeverity::MediumLow => LogLevel::Info,
            ErrorSeverity::Medium => LogLevel::Warning,
            ErrorSeverity::MediumHigh => LogLevel::Error,
            ErrorSeverity::High => LogLevel::Error,
        }
    }

    /// The numeric tag, as sent to the host.
    pub fn code(self) -> (r: u8)
        ensures
            r as int == self.tag(),
    {
        match self {
            LogLevel::Debug => 0,
            LogLevel::Info => 1,
            LogLevel::Warning => 2,
            LogLevel::Error => 3,
        }
    }
}

impl From<ErrorSeverity> for LogLevel {
    fn from(severity: ErrorSeverity) -> (r: LogLevel) {
        match severity {
            ErrorSeverity::Other => LogLevel::Info,
            ErrorSeverity::Low => LogLevel::Debug,
            ErrorSeverity::MediumLow => LogLevel::Info,
            ErrorSeverity::Medium => LogLevel::Warning,
            ErrorSeverity::MediumHigh => LogLevel::Error,
            ErrorSeverity::High => LogLevel::Error,
        }
    }
}

impl vstd::std_specs::convert::FromSpecImpl<ErrorSeverity> for LogLevel {
    open spec fn obeys_from_spec() -> bool {
        true
    }

    open spec fn from_spec(severity: ErrorSeverity) -> LogLevel {
        LogLevel::spec_from_severity(severity)
    }
}

} // verus!
