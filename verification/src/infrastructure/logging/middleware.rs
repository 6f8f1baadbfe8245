//! What the request logger notes about a request and its response.

use vstd::prelude::*;
use vstd::string::StringExecFns;
use crate::api::http::{is_server_error, is_success, Severity};

verus! {

/// Middleware for logging HTTP requests and responses.
#[derive(Debug, Clone, Copy, PartialEq, Eq, Structural)]
pub struct RequestLogger {
    log_bodies: bool,
}

/// How a request ended, for the log.
#[derive(Debug, Clone, Copy, PartialEq, Eq, Structural)]
pub enum Completion {
    /// A success status.
    Succeeded,
    /// A server error status.
    ServerFailed,
    /// Any other status.
    Other,
}

/// The completion that goes with a status.
pub open spec fn completion_for(status: u16) -> Completion {
    if is_success(status) {
        Completion::Succeeded
    } else if is_server_error(status) {
        Completion::ServerFailed
    } else {
        Completion::Other
    }
}

impl Completion {
    /// Severity with which the completion is noted: a warning for a server
    /// error, information otherwise.
    pub fn severity(&self) -> (severity: Severity)
        ensures
            severity == match *self {
                Completion::ServerFailed => Severity::Warn,
                _ => Severity::Info,
            },
    {
        match self {
            Completion::ServerFailed => Severity::Warn,
            _ => Severity::Info,
        }
    }

    /// Text of the note.
    pub fn message(&self) -> (text: &'static str)
        ensures
            text@ == match *self {
                Completion::Succeeded => "Request completed successfully"@,
                Completion::ServerFailed => "Request failed with server error"@,
                Completion::Other => "Request completed with non-success status"@,
            },
    {
        match self {
            Completion::Succeeded => "Request completed successfully",
            Completion::ServerFailed => "Request failed with server error",
            Completion::Other => "Request completed with non-success status",
        }
    }
}

/// A header value or an address as the log shows it: the text where there
/// is one, else `unknown`.
pub fn or_unknown(text: Option<&str>) -> (shown: String)
    ensures
        shown@ == match text {
            Some(t) => t@,
            None => "unknown"@,
        },
{
    match text {
        Some(t) => String::from_str(t),
        None => String::from_str("unknown"),
    }
}

impl RequestLogger {
    /// Create a new request logger middleware. `log_bodies` says whether
    /// request and response bodies are logged, which can expose what is
    /// confidential.
    pub fn new(log_bodies: bool) -> (logger: RequestLogger)
        ensures
            logger.logs_bodies() == log_bodies,
    {
        RequestLogger { log_bodies }
    }

    /// Whether bodies are logged.
    pub closed spec fn logs_bodies(self) -> bool {
        self.log_bodies
    }

    /// Whether bodies are logged.
    pub fn log_bodies(&self) -> (log_bodies: bool)
        ensures
            log_bodies == self.logs_bodies(),
    {
        self.log_bodies
    }

    /// How a request that was answered with `status` ended.
    pub fn completion(&self, status: u16) -> (completion: Completion)
        ensures
            completion == completion_for(status),
    {
        if status >= 200 && status < 300 {
            Completion::Succeeded
        } else if status >= 500 && status < 600 {
            Completion::ServerFailed
        } else {
            Completion::Other
        }
    }
}

} // verus!
