//! The payload endpoints: what each answers to the outcome of its use
//! case.

use vstd::prelude::*;
use vstd::string::StringExecFns;
use crate::api::http::{
    BAD_REQUEST, CREATED, GONE, INTERNAL_SERVER_ERROR, NOT_FOUND, NO_CONTENT, OK,
};
use crate::application::dtos::{CreatePayloadResponse, GetPayloadResponse};
use crate::application::use_cases::UseCaseError;
use crate::domain::payload::payload_error_text;
use crate::domain::time::Timestamp;
use crate::text::{decimal, decimal_string};

verus! {

/// Maximum payload size in bytes (10MB)
pub const MAX_PAYLOAD_SIZE: usize = 10 * 1024 * 1024;

/// What an endpoint answers.
#[derive(Debug, Clone, PartialEq, Eq)]
pub enum Reply {
    /// 201: the payload was created under `hash_id` and expires at
    /// `expires_at`.
    Created { hash_id: String, expires_at: Timestamp },
    /// 200: the payload.
    Found(GetPayloadResponse),
    /// 204: the payload was deleted.
    Deleted,
    /// An error status with a message.
    Failed { status: u16, error: String },
}

/// A reply as mathematics sees it.
pub enum ReplyView {
    Created { hash_id: Seq<char>, expires_at: Timestamp },
    Found(GetPayloadResponse),
    Deleted,
    Failed { status: u16, error: Seq<char> },
}

impl View for Reply {
    type V = ReplyView;

    open spec fn view(&self) -> ReplyView {
        match *self {
            Reply::Created { hash_id, expires_at } => ReplyView::Created {
                hash_id: hash_id@,
                expires_at,
            },
            Reply::Found(details) => ReplyView::Found(details),
            Reply::Deleted => ReplyView::Deleted,
            Reply::Failed { status, error } => ReplyView::Failed { status, error: error@ },
        }
    }
}

impl Reply {
    /// The status that the reply is sent with.
    pub fn status(&self) -> (status: u16)
        ensures
            status == match *self {
                Reply::Created { .. } => CREATED,
                Reply::Found(_) => OK,
                Reply::Deleted => NO_CONTENT,
                Reply::Failed { status, .. } => status,
            },
    {
        match self {
            Reply::Created { .. } => CREATED,
            Reply::Found(_) => OK,
            Reply::Deleted => NO_CONTENT,
            Reply::Failed { status, .. } => *status,
        }
    }
}

/// Text of the refusal of a payload that is too large.
pub open spec fn too_large_text() -> Seq<char> {
    "Payload too large, maximum size is "@ + decimal(MAX_PAYLOAD_SIZE as nat) + " bytes"@
}

/// The refusal of a request whose content has `size` bytes, if that is
/// more than [`MAX_PAYLOAD_SIZE`]. It is decided before the use case runs.
pub fn size_refusal(size: usize) -> (reply: Option<Reply>)
    ensures
        match reply {
            Some(r) => size > MAX_PAYLOAD_SIZE && r@ == (ReplyView::Failed {
                status: BAD_REQUEST,
                error: too_large_text(),
            }),
            None => size <= MAX_PAYLOAD_SIZE,
        },
{
    if size > MAX_PAYLOAD_SIZE {
        let limit = decimal_string(MAX_PAYLOAD_SIZE as u64);
        let error = String::from_str("Payload too large, maximum size is ").concat(
            limit.as_str(),
        ).concat(" bytes");
        Some(Reply::Failed { status: BAD_REQUEST, error })
    } else {
        None
    }
}

/// What the creation endpoint answers to an error of its use case.
pub open spec fn creation_failure(error: UseCaseError) -> ReplyView {
    match error {
        UseCaseError::ValidationError(detail) => ReplyView::Failed {
            status: BAD_REQUEST,
            error: detail@,
        },
        UseCaseError::RepositoryError(_) => ReplyView::Failed {
            status: INTERNAL_SERVER_ERROR,
            error: "Internal server error"@,
        },
        UseCaseError::DomainError(inner) => ReplyView::Failed {
            status: INTERNAL_SERVER_ERROR,
            error: payload_error_text(inner),
        },
        _ => ReplyView::Failed {
            status: INTERNAL_SERVER_ERROR,
            error: "An unexpected error occurred"@,
        },
    }
}

/// The answer of the creation endpoint to the outcome of its use case.
pub fn create_payload_reply(outcome: Result<CreatePayloadResponse, UseCaseError>) -> (reply:
    Reply)
    ensures
        match outcome {
            Ok(response) => reply@ == (ReplyView::Created {
                hash_id: response.hash_id@,
                expires_at: response.expiry_time,
            }),
            Err(error) => reply@ == creation_failure(error),
        },
{
    match outcome {
        Ok(response) => Reply::Created {
            hash_id: response.hash_id,
            expires_at: response.expiry_time,
        },
        Err(UseCaseError::ValidationError(detail)) => Reply::Failed {
            status: BAD_REQUEST,
            error: detail,
        },
        Err(UseCaseError::RepositoryError(_)) => Reply::Failed {
            status: INTERNAL_SERVER_ERROR,
            error: String::from_str("Internal server error"),
        },
        Err(UseCaseError::DomainError(inner)) => Reply::Failed {
            status: INTERNAL_SERVER_ERROR,
            error: inner.to_string(),
        },
        Err(_) => Reply::Failed {
            status: INTERNAL_SERVER_ERROR,
            error: String::from_str("An unexpected error occurred"),
        },
    }
}

/// What the retrieval endpoint answers to an error of its use case.
pub open spec fn retrieval_failure(error: UseCaseError) -> ReplyView {
    match error {
        UseCaseError::NotFound => ReplyView::Failed {
            status: NOT_FOUND,
            error: "Payload not found"@,
        },
        UseCaseError::Expired => ReplyView::Failed { status: GONE, error: "Payload has expired"@ },
        _ => ReplyView::Failed {
            status: INTERNAL_SERVER_ERROR,
            error: "An unexpected error occurred"@,
        },
    }
}

/// The answer of the retrieval endpoint to the outcome of its use case.
pub fn get_payload_reply(outcome: Result<GetPayloadResponse, UseCaseError>) -> (reply: Reply)
    ensures
        match outcome {
            Ok(response) => reply@ == ReplyView::Found(response),
            Err(error) => reply@ == retrieval_failure(error),
        },
{
    match outcome {
        Ok(response) => Reply::Found(response),
        Err(UseCaseError::NotFound) => Reply::Failed {
            status: NOT_FOUND,
            error: String::from_str("Payload not found"),
        },
        Err(UseCaseError::Expired) => Reply::Failed {
            status: GONE,
            error: String::from_str("Payload has expired"),
        },
        Err(_) => Reply::Failed {
            status: INTERNAL_SERVER_ERROR,
            error: String::from_str("An unexpected error occurred"),
        },
    }
}

/// What the deletion endpoint answers to an error of its use case: a
/// repository that fails counts as a payload that is not there.
pub open spec fn deletion_failure(error: UseCaseError) -> ReplyView {
    match error {
        UseCaseError::RepositoryError(_) => ReplyView::Failed {
            status: NOT_FOUND,
            error: "Payload not found"@,
        },
        _ => ReplyView::Failed {
            status: INTERNAL_SERVER_ERROR,
            error: "An unexpected error occurred"@,
        },
    }
}

/// The answer of the deletion endpoint to the outcome of its use case.
pub fn delete_payload_reply(outcome: Result<(), UseCaseError>) -> (reply: Reply)
    ensures
        match outcome {
            Ok(()) => reply@ == ReplyView::Deleted,
            Err(error) => reply@ == deletion_failure(error),
        },
{
    match outcome {
        Ok(()) => Reply::Deleted,
        Err(UseCaseError::RepositoryError(_)) => Reply::Failed {
            status: NOT_FOUND,
            error: String::from_str("Payload not found"),
        },
        Err(_) => Reply::Failed {
            status: INTERNAL_SERVER_ERROR,
            error: String::from_str("An unexpected error occurred"),
        },
    }
}

} // verus!
