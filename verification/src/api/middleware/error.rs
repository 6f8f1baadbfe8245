//! Error handling of the API: the standard error response and what is
//! logged of a response.

use vstd::prelude::*;
use vstd::string::StringExecFns;
use crate::api::http::{
    is_client_error, is_server_error, is_status_code, Severity, BAD_REQUEST,
    INTERNAL_SERVER_ERROR,
};
use crate::text::{decimal, decimal_string};

verus! {

/// Standard error response format for the API.
#[derive(Debug, Clone, PartialEq, Eq)]
pub struct ErrorResponse {
    /// HTTP status code
    pub status: u16,
    /// Error message
    pub message: String,
    /// Error code (optional)
    pub code: Option<String>,
    /// Request ID (optional)
    pub request_id: Option<String>,
}

/// The status that a response with the field `status` is sent with: the
/// field where it can be a status code, else 500.
pub open spec fn effective_status(status: u16) -> u16 {
    if is_status_code(status) {
        status
    } else {
        INTERNAL_SERVER_ERROR
    }
}

impl ErrorResponse {
    /// The response in one line: the status, a colon and the message.
    pub open spec fn line(&self) -> Seq<char> {
        decimal(self.status as nat) + ": "@ + self.message@
    }

    /// Writes the response in one line.
    pub fn to_string(&self) -> (text: String)
        ensures
            text@ == self.line(),
    {
        decimal_string(self.status as u64).concat(": ").concat(self.message.as_str())
    }

    /// The status that the response is sent with.
    pub fn status_code(&self) -> (status: u16)
        ensures
            status == effective_status(self.status),
    {
        if self.status >= 100 && self.status < 1000 {
            self.status
        } else {
            INTERNAL_SERVER_ERROR
        }
    }
}

/// The response to a request whose JSON body could not be read; `detail`
/// says why.
pub fn json_error_response(detail: &str) -> (response: ErrorResponse)
    ensures
        response.status == BAD_REQUEST,
        response.message@ == "JSON error: "@ + detail@,
        response.code matches Some(code) && code@ == "INVALID_JSON"@,
        response.request_id is None,
{
    ErrorResponse {
        status: BAD_REQUEST,
        message: String::from_str("JSON error: ").concat(detail),
        code: Some(String::from_str("INVALID_JSON")),
        request_id: None,
    }
}

/// What the error handler writes to the log about a response.
#[derive(Debug, Clone, Copy, PartialEq, Eq, Structural)]
pub enum ResponseNote {
    /// Nothing: the response is no error.
    Silent,
    /// A warning: the client made an error.
    ClientError,
    /// An error: the server failed.
    ServerError,
}

/// The note that goes with a status.
pub open spec fn note_for(status: u16) -> ResponseNote {
    if is_client_error(status) {
        ResponseNote::ClientError
    } else if is_server_error(status) {
        ResponseNote::ServerError
    } else {
        ResponseNote::Silent
    }
}

impl ResponseNote {
    /// Severity of the note, if it is written at all.
    pub fn severity(&self) -> (severity: Option<Severity>)
        ensures
            severity == match *self {
                ResponseNote::Silent => None::<Severity>,
                ResponseNote::ClientError => Some(Severity::Warn),
                ResponseNote::ServerError => Some(Severity::Error),
            },
    {
        match self {
            ResponseNote::Silent => None,
            ResponseNote::ClientError => Some(Severity::Warn),
            ResponseNote::ServerError => Some(Severity::Error),
        }
    }

    /// Text of the note; empty for the silent one.
    pub fn message(&self) -> (text: &'static str)
        ensures
            text@ == match *self {
                ResponseNote::Silent => ""@,
                ResponseNote::ClientError => "Client error"@,
                ResponseNote::ServerError => "Server error"@,
            },
    {
        match self {
            ResponseNote::Silent => "",
            ResponseNote::ClientError => "Client error",
            ResponseNote::ServerError => "Server error",
        }
    }
}

/// Error handling middleware for the API: it lets every response pass and
/// notes the errors among them in the log.
#[derive(Debug, Clone, Copy, PartialEq, Eq, Structural)]
pub struct ErrorHandlerMiddleware;

impl ErrorHandlerMiddleware {
    /// Create a new error handler middleware.
    pub fn new() -> (middleware: ErrorHandlerMiddleware) {
        ErrorHandlerMiddleware
    }

    /// What is written to the log about a response with this status.
    pub fn note(&self, status: u16) -> (note: ResponseNote)
        ensures
            note == note_for(status),
    {
        if status >= 400 && status < 500 {
            ResponseNote::ClientError
        } else if status >= 500 && status < 600 {
            ResponseNote::ServerError
        } else {
            ResponseNote::Silent
        }
    }
}

impl Default for ErrorHandlerMiddleware {
    fn default() -> (middleware: ErrorHandlerMiddleware) {
        ErrorHandlerMiddleware
    }
}

} // verus!
