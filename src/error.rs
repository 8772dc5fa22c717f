//! Errors of the endpoint, their severities, and the failures of its
//! commands and events.
use vstd::prelude::*;
use vstd::string::*;

use crate::codec::error::CodecError;
use crate::logging::LogLevel;

verus! {

#[derive(Debug, Copy, Clone, PartialEq, Eq, Structural)]
pub enum ErrorKind {
    Io,
    Network,
    Mailbox,
    Other,
}

#[derive(Debug, Copy, Clone, PartialEq, Eq, Structural)]
pub enum ErrorSeverity {
    Low,
    MediumLow,
    Medium,
    MediumHigh,
    High,
    Other,
}

impl ErrorKind {
    pub open spec fn spec_name(self) -> Seq<char> {
        match self {
            ErrorKind::Io => "Io"@,
            ErrorKind::Network => "Network"@,
            ErrorKind::Mailbox => "Mailbox"@,
            ErrorKind::Other => "Other"@,
        }
    }

    pub fn name(self) -> (r: &'static str)
        ensures
            r@ == self.spec_name(),
    {
        match self {
            ErrorKind::Io => "Io",
            ErrorKind::Network => "Network",
            ErrorKind::Mailbox => "Mailbox",
            ErrorKind::Other => "Other",
        }
    }
}

impl ErrorSeverity {
    pub open spec fn spec_name(self) -> Seq<char> {
        match self {
            ErrorSeverity::Low => "Low"@,
            ErrorSeverity::MediumLow => "MediumLow"@,
            ErrorSeverity::Medium => "Medium"@,
            ErrorSeverity::MediumHigh => "MediumHigh"@,
            ErrorSeverity::High => "High"@,
            ErrorSeverity::Other => "Other"@,
        }
    }

    pub fn name(self) -> (r: &'static str)
        ensures
            r@ == self.spec_name(),
    {
        match self {
            ErrorSeverity::Low => "Low",
            ErrorSeverity::MediumLow => "MediumLow",
            ErrorSeverity::Medium => "Medium",
            ErrorSeverity::MediumHigh => "MediumHigh",
            ErrorSeverity::High => "High",
            ErrorSeverity::Other => "Other",
        }
    }
}

/// An error with its kind, its severity and a description.
#[derive(Debug, Clone)]
pub struct Error {
    pub kind: ErrorKind,
    pub severity: ErrorSeverity,
    pub message: String,
}

impl Error {
    pub fn new(kind: ErrorKind, severity: ErrorSeverity, message: &str) -> (r: Error)
        ensures
            r.kind == kind,
            r.severity == severity,
            r.message@ == message@,
    {
        let message = String::from_str(message);
        Error { kind, severity, message }
    }

    /// The error as text: `error (<kind>, severity: <severity>): <message>`.
    pub fn to_string(&self) -> (r: String)
        ensures
            r@ == "error ("@ + self.kind.spec_name() + ", severity: "@ + self.severity.spec_name()
                + "): "@ + self.message@,
    {
        String::from_str("error (").concat(self.kind.name()).concat(", severity: ").concat(
            self.severity.name(),
        ).concat("): ").concat(self.message.as_str())
    }

    /// The error that a codec error is reported as.
    pub fn from_codec_error(e: &CodecError) -> (r: Error)
        ensures
            r.kind == ErrorKind::Other,
            r.severity == ErrorSeverity::Medium,
            r.message@ == "codec error: "@ + "message codec error: "@ + e.spec_message(),
    {
        let text = e.to_string();
        let message = String::from_str("codec error: ").concat(text.as_str());
        Error { kind: ErrorKind::Other, severity: ErrorSeverity::Medium, message }
    }

    /// The error that a failure of the endpoint is reported as: its
    /// severity is the one whose log level is the failure's.
    pub fn from_failure(failure: Failure) -> (r: Error)
        ensures
            r.kind == failure.spec_kind(),
            r.severity == failure.spec_severity(),
            r.message@ == failure.spec_text(),
            LogLevel::spec_from_severity(r.severity) == failure.spec_level(),
    {
        let text = failure.text();
        Error { kind: failure.kind(), severity: failure.severity(), message: text }
    }
}

/// The ways in which the endpoint's commands and events fail.
#[derive(Debug, Copy, Clone, PartialEq, Eq, Structural)]
pub enum Failure {
    /// A socket cannot be bound.
    BindFailure,
    /// The operation is not valid for the transport.
    Unsupported,
    /// No session matches the key.
    NotConnected,
    /// The endpoint, or the transport needed, is not running.
    NotRunning,
    /// A serialized envelope exceeds the frame length cap.
    EncodeTooLarge,
    /// A frame's payload is not a serialized envelope.
    DecodeMalformed,
    /// The egress channel is closed or a socket write failed.
    SendFailure,
    /// The host's consumer of events failed.
    HostCallback,
}

impl Failure {
    /// The log level a failure is reported at.
    pub open spec fn spec_level(self) -> LogLevel {
        match self {
            Failure::BindFailure => LogLevel::Error,
            Failure::Unsupported => LogLevel::Warning,
            Failure::NotConnected => LogLevel::Warning,
            Failure::NotRunning => LogLevel::Warning,
            Failure::EncodeTooLarge => LogLevel::Info,
            Failure::DecodeMalformed => LogLevel::Info,
            Failure::SendFailure => LogLevel::Warning,
            Failure::HostCallback => LogLevel::Error,
        }
    }

    pub open spec fn spec_severity(self) -> ErrorSeverity {
        match self {
            Failure::BindFailure => ErrorSeverity::High,
            Failure::Unsupported => ErrorSeverity::Medium,
            Failure::NotConnected => ErrorSeverity::Medium,
            Failure::NotRunning => ErrorSeverity::Medium,
            Failure::EncodeTooLarge => ErrorSeverity::MediumLow,
            Failure::DecodeMalformed => ErrorSeverity::MediumLow,
            Failure::SendFailure => ErrorSeverity::Medium,
            Failure::HostCallback => ErrorSeverity::High,
        }
    }

    pub open spec fn spec_kind(self) -> ErrorKind {
        match self {
            Failure::BindFailure => ErrorKind::Io,
            Failure::SendFailure => ErrorKind::Io,
            Failure::EncodeTooLarge => ErrorKind::Other,
            Failure::DecodeMalformed => ErrorKind::Other,
            Failure::HostCallback => ErrorKind::Other,
            _ => ErrorKind::Network,
        }
    }

    pub open spec fn spec_text(self) -> Seq<char> {
        match self {
            Failure::BindFailure => "cannot bind the socket"@,
            Failure::Unsupported => "operation not supported by the transport"@,
            Failure::NotConnected => "not connected"@,
            Failure::NotRunning => "not running"@,
            Failure::EncodeTooLarge => "envelope exceeds the size limit"@,
            Failure::DecodeMalformed => "malformed envelope"@,
            Failure::SendFailure => "cannot send"@,
            Failure::HostCallback => "host callback failed"@,
        }
    }

    /// The log level a failure is reported at.
    pub fn level(self) -> (r: LogLevel)
        ensures
            r == self.spec_level(),
    {
        match self {
            Failure::BindFailure => LogLevel::Error,
            Failure::Unsupported => LogLevel::Warning,
            Failure::NotConnected => LogLevel::Warning,
            Failure::NotRunning => LogLevel::Warning,
            Failure::EncodeTooLarge => LogLevel::Info,
            Failure::DecodeMalformed => LogLevel::Info,
            Failure::SendFailure => LogLevel::Warning,
            Failure::HostCallback => LogLevel::Error,
        }
    }

    /// The severity of the error a failure is reported as.
    pub fn severity(self) -> (r: ErrorSeverity)
        ensures
            r == self.spec_severity(),
            LogLevel::spec_from_severity(r) == self.spec_level(),
    {
        match self {
            Failure::BindFailure => ErrorSeverity::High,
            Failure::Unsupported => ErrorSeverity::Medium,
            Failure::NotConnected => ErrorSeverity::Medium,
            Failure::NotRunning => ErrorSeverity::Medium,
            Failure::EncodeTooLarge => ErrorSeverity::MediumLow,
            Failure::DecodeMalformed => ErrorSeverity::MediumLow,
            Failure::SendFailure => ErrorSeverity::Medium,
            Failure::HostCallback => ErrorSeverity::High,
        }
    }

    /// The kind of the error a failure is reported as.
    pub fn kind(self) -> (r: ErrorKind)
        ensures
            r == self.spec_kind(),
    {
        match self {
            Failure::BindFailure => ErrorKind::Io,
            Failure::SendFailure => ErrorKind::Io,
            Failure::EncodeTooLarge => ErrorKind::Other,
            Failure::DecodeMalformed => ErrorKind::Other,
            Failure::HostCallback => ErrorKind::Other,
            _ => ErrorKind::Network,
        }
    }

    /// A description of the failure.
    pub fn text(self) -> (r: String)
        ensures
            r@ == self.spec_text(),
    {
        match self {
            Failure::BindFailure => String::from_str("cannot bind the socket"),
            Failure::Unsupported => String::from_str("operation not supported by the transport"),
            Failure::NotConnected => String::from_str("not connected"),
            Failure::NotRunning => String::from_str("not running"),
            Failure::EncodeTooLarge => String::from_str("envelope exceeds the size limit"),
            Failure::DecodeMalformed => String::from_str("malformed envelope"),
            Failure::SendFailure => String::from_str("cannot send"),
            Failure::HostCallback => String::from_str("host callback failed"),
        }
    }
}

} // verus!
