//! The use cases of the service, as decisions.
//!
//! Storing and loading a payload is the work of a repository that lives
//! outside this library. What a use case decides before and after that
//! work is here: whether a payload is made of a request, and what becomes
//! of a payload that was loaded.

use vstd::prelude::*;
use vstd::string::StringExecFns;
use crate::domain::hash_id::{is_simple_uuid_v4, HashId};
use crate::domain::payload::{
    assembled, payload_error_text, refusal, text_of, Payload, PayloadError, PayloadView,
};
use crate::domain::time::{utc_now, Timestamp};
use super::dtos::{
    failure_text, first_failure, CreatePayloadRequest, GetPayloadResponse, PayloadDetails,
};

verus! {

/// Errors that can occur in use cases.
#[derive(Debug, Clone, PartialEq, Eq)]
pub enum UseCaseError {
    /// The request breaks a rule; the text names it.
    ValidationError(String),
    /// Payload was not found.
    NotFound,
    /// Payload has expired.
    Expired,
    /// The repository failed; the text says how.
    RepositoryError(String),
    /// The domain refused the payload.
    DomainError(PayloadError),
}

/// Text of a use case error.
pub open spec fn use_case_error_text(error: UseCaseError) -> Seq<char> {
    match error {
        UseCaseError::ValidationError(detail) => "Validation error: "@ + detail@,
        UseCaseError::NotFound => "Payload not found"@,
        UseCaseError::Expired => "Payload has expired"@,
        UseCaseError::RepositoryError(detail) => "Repository error: "@ + detail@,
        UseCaseError::DomainError(inner) => "Domain error: "@ + payload_error_text(inner),
    }
}

impl UseCaseError {
    /// The message of the error.
    pub fn to_string(&self) -> (text: String)
        ensures
            text@ == use_case_error_text(*self),
    {
        match self {
            UseCaseError::ValidationError(detail) => String::from_str("Validation error: ").concat(
                detail.as_str(),
            ),
            UseCaseError::NotFound => String::from_str("Payload not found"),
            UseCaseError::Expired => String::from_str("Payload has expired"),
            UseCaseError::RepositoryError(detail) => String::from_str("Repository error: ").concat(
                detail.as_str(),
            ),
            UseCaseError::DomainError(inner) => {
                let detail = inner.to_string();
                String::from_str("Domain error: ").concat(detail.as_str())
            },
        }
    }
}

/// Why no payload is made of a request, if none is: the first rule of the
/// request that is broken, else the refusal of the domain.
pub open spec fn creation_refusal(content: Seq<char>, mime_type: Option<Seq<char>>) -> Option<
    Seq<char>,
> {
    match first_failure(content, mime_type) {
        Some(failure) => Some("Validation error: "@ + failure_text(failure)),
        None => match refusal(content, mime_type) {
            Some(text) => Some("Domain error: "@ + text),
            None => None,
        },
    }
}

/// Makes the payload that a request asks for, created at `now` under
/// `hash_id`. The request is validated first; a request that passes can
/// still name a MIME type that is well formed but not supported.
pub fn payload_for(request: CreatePayloadRequest, now: Timestamp, hash_id: HashId) -> (made: Result<
    Payload,
    UseCaseError,
>)
    ensures
        match made {
            Ok(payload) => creation_refusal(request.content@, text_of(request.mime_type)) is None
                && assembled(
                request.content@,
                text_of(request.mime_type),
                request.expiry_time,
                now,
                hash_id@,
            ) == Ok::<PayloadView, Seq<char>>(payload@),
            Err(error) => creation_refusal(request.content@, text_of(request.mime_type)) == Some(
                use_case_error_text(error),
            ),
        },
{
    match request.validate() {
        Err(failure) => Err(UseCaseError::ValidationError(failure.message())),
        Ok(()) => {
            match Payload::assemble(
                request.content,
                request.mime_type,
                request.expiry_time,
                now,
                hash_id,
            ) {
                Ok(payload) => Ok(payload),
                Err(error) => Err(UseCaseError::DomainError(error)),
            }
        },
    }
}

/// Makes the payload that a request asks for: the clock is read for its
/// creation time and a random identifier is drawn for it. What is made is
/// what [`payload_for`] makes of the reading and the draw.
pub fn new_payload(request: CreatePayloadRequest) -> (made: Result<Payload, UseCaseError>)
    ensures
        match made {
            Ok(payload) => creation_refusal(request.content@, text_of(request.mime_type)) is None
                && is_simple_uuid_v4(payload@.hash_id) && assembled(
                request.content@,
                text_of(request.mime_type),
                request.expiry_time,
                payload@.created_at,
                payload@.hash_id,
            ) == Ok::<PayloadView, Seq<char>>(payload@),
            Err(error) => creation_refusal(request.content@, text_of(request.mime_type)) == Some(
                use_case_error_text(error),
            ),
        },
{
    let now = utc_now();
    let hash_id = HashId::new();
    payload_for(request, now, hash_id)
}

/// What becomes of a payload that a client asked for.
#[derive(Debug, Clone, PartialEq, Eq)]
pub enum Retrieval {
    /// There is no such payload: answer `NotFound`.
    Missing,
    /// The payload has expired: delete it, then answer `Expired`.
    DeleteExpired,
    /// The payload is handed out: save it as viewed, then answer with its
    /// details.
    SaveViewed(Payload, GetPayloadResponse),
}

/// Decides what becomes of the payload that the repository found at
/// `now`. A payload that is handed out is marked as viewed at `now`.
pub fn retrieve_at(found: Option<Payload>, now: Timestamp) -> (outcome: Retrieval)
    ensures
        match found {
            None => outcome is Missing,
            Some(payload) => if now.is_after(payload@.expiry_time) {
                outcome is DeleteExpired
            } else {
                outcome matches Retrieval::SaveViewed(viewed, details) && viewed@ == (PayloadView {
                    viewed_at: Some(now),
                    ..payload@
                }) && details.describes(viewed@)
            },
        },
{
    match found {
        None => Retrieval::Missing,
        Some(payload) => {
            if payload.is_expired_at(now) {
                Retrieval::DeleteExpired
            } else {
                let mut viewed = payload;
                viewed.mark_viewed_at(now);
                let details = PayloadDetails::of(&viewed);
                Retrieval::SaveViewed(viewed, details)
            }
        },
    }
}

/// Decides what becomes of the payload that the repository found, by the
/// system clock: what [`retrieve_at`] decides for the reading.
pub fn retrieve(found: Option<Payload>) -> (outcome: Retrieval)
    ensures
        found is None <==> outcome is Missing,
        outcome matches Retrieval::SaveViewed(viewed, details) ==> viewed@.viewed_at is Some
            && viewed@ == (PayloadView { viewed_at: viewed@.viewed_at, ..found->0@ })
            && details.describes(viewed@),
{
    let now = utc_now();
    retrieve_at(found, now)
}

/// The error that a retrieval ends in, if it ends in one.
pub fn retrieval_error(outcome: &Retrieval) -> (error: Option<UseCaseError>)
    ensures
        match *outcome {
            Retrieval::Missing => error == Some(UseCaseError::NotFound),
            Retrieval::DeleteExpired => error == Some(UseCaseError::Expired),
            Retrieval::SaveViewed(_, _) => error is None,
        },
{
    match outcome {
        Retrieval::Missing => Some(UseCaseError::NotFound),
        Retrieval::DeleteExpired => Some(UseCaseError::Expired),
        Retrieval::SaveViewed(_, _) => None,
    }
}

} // verus!
