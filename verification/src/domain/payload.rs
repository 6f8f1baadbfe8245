//! The payload: a piece of content shared for a limited time.

use vstd::prelude::*;
use vstd::string::StringExecFns;
use super::hash_id::{is_simple_uuid_v4, HashId};
use super::mime_type::{named, unsupported_text, MimeType, MimeTypeError};
use super::time::{utc_now, Timestamp, DAY_SECONDS};

verus! {

/// Errors that can occur when working with payloads.
#[derive(Debug, Clone, PartialEq, Eq)]
pub enum PayloadError {
    /// The payload has expired and is no longer accessible.
    Expired,
    /// The MIME type provided is not supported.
    InvalidMimeType(MimeTypeError),
    /// The content is empty.
    EmptyContent,
}

/// Text of a payload error.
pub open spec fn payload_error_text(error: PayloadError) -> Seq<char> {
    match error {
        PayloadError::Expired => "Payload has expired"@,
        PayloadError::InvalidMimeType(MimeTypeError::UnsupportedMimeType(offered)) =>
            "Invalid MIME type: "@ + unsupported_text(offered@),
        PayloadError::EmptyContent => "Content cannot be empty"@,
    }
}

impl PayloadError {
    /// The message of the error.
    pub fn to_string(&self) -> (text: String)
        ensures
            text@ == payload_error_text(*self),
    {
        match self {
            PayloadError::Expired => String::from_str("Payload has expired"),
            PayloadError::InvalidMimeType(inner) => {
                let detail = inner.to_string();
                String::from_str("Invalid MIME type: ").concat(detail.as_str())
            },
            PayloadError::EmptyContent => String::from_str("Content cannot be empty"),
        }
    }
}

/// A shareable payload.
#[derive(Debug, Clone, PartialEq, Eq)]
pub struct Payload {
    hash_id: HashId,
    content: String,
    mime_type: MimeType,
    created_at: Timestamp,
    updated_at: Timestamp,
    viewed_at: Option<Timestamp>,
    expiry_time: Timestamp,
}

/// A payload as mathematics sees it.
pub struct PayloadView {
    pub hash_id: Seq<char>,
    pub content: Seq<char>,
    pub mime_type: MimeType,
    pub created_at: Timestamp,
    pub updated_at: Timestamp,
    pub viewed_at: Option<Timestamp>,
    pub expiry_time: Timestamp,
}

impl View for Payload {
    type V = PayloadView;

    closed spec fn view(&self) -> PayloadView {
        PayloadView {
            hash_id: self.hash_id@,
            content: self.content@,
            mime_type: self.mime_type,
            created_at: self.created_at,
            updated_at: self.updated_at,
            viewed_at: self.viewed_at,
            expiry_time: self.expiry_time,
        }
    }
}

/// The MIME type of a new payload: plain text unless one is named.
pub open spec fn chosen_mime_type(mime_type: Option<Seq<char>>) -> Option<MimeType> {
    match mime_type {
        Some(name) => named(name),
        None => Some(MimeType::TextPlain),
    }
}

/// The expiry of a new payload: 24 hours after its creation unless one is
/// given.
pub open spec fn chosen_expiry(expiry_time: Option<Timestamp>, now: Timestamp) -> Timestamp {
    match expiry_time {
        Some(at) => at,
        None => now.later_by(DAY_SECONDS),
    }
}

/// The views of an optional string.
pub open spec fn text_of(text: Option<String>) -> Option<Seq<char>> {
    match text {
        Some(t) => Some(t@),
        None => None,
    }
}

/// Why no payload is made of this content and MIME type, if none is: empty
/// content is refused first, then a MIME type that is not supported.
pub open spec fn refusal(content: Seq<char>, mime_type: Option<Seq<char>>) -> Option<Seq<char>> {
    if content.len() == 0 {
        Some("Content cannot be empty"@)
    } else if chosen_mime_type(mime_type) is None {
        Some("Invalid MIME type: "@ + unsupported_text(mime_type->0))
    } else {
        None
    }
}

/// What [`Payload::assemble`] returns: the text of the refusal, or the
/// payload created at `now` under `hash_id`.
pub open spec fn assembled(
    content: Seq<char>,
    mime_type: Option<Seq<char>>,
    expiry_time: Option<Timestamp>,
    now: Timestamp,
    hash_id: Seq<char>,
) -> Result<PayloadView, Seq<char>> {
    match refusal(content, mime_type) {
        Some(text) => Err(text),
        None => Ok(
            PayloadView {
                hash_id,
                content,
                mime_type: chosen_mime_type(mime_type)->0,
                created_at: now,
                updated_at: now,
                viewed_at: None,
                expiry_time: chosen_expiry(expiry_time, now),
            },
        ),
    }
}

impl Payload {
    /// Makes the payload that is created at `now` under `hash_id`.
    ///
    /// Empty content is refused first, then a MIME type that is not
    /// supported. Without a MIME type the payload is plain text; without an
    /// expiry it expires 24 hours after `now`.
    pub fn assemble(
        content: String,
        mime_type: Option<String>,
        expiry_time: Option<Timestamp>,
        now: Timestamp,
        hash_id: HashId,
    ) -> (made: Result<Payload, PayloadError>)
        ensures
            match made {
                Ok(payload) => assembled(content@, text_of(mime_type), expiry_time, now, hash_id@)
                    == Ok::<PayloadView, Seq<char>>(payload@),
                Err(error) => assembled(content@, text_of(mime_type), expiry_time, now, hash_id@)
                    == Err::<PayloadView, Seq<char>>(payload_error_text(error)),
            },
            made matches Err(error) ==> (error is EmptyContent <==> content@.len() == 0),
    {
        if content.as_str().is_empty() {
            return Err(PayloadError::EmptyContent);
        }
        let mime = match mime_type {
            Some(name) => match MimeType::try_from(name.as_str()) {
                Ok(mime) => mime,
                Err(error) => {
                    proof {
                        reveal_strlit("Content cannot be empty");
                        reveal_strlit("Invalid MIME type: ");
                    }
                    return Err(PayloadError::InvalidMimeType(error));
                },
            },
            None => MimeType::TextPlain,
        };
        let expiry = match expiry_time {
            Some(at) => at,
            None => now.plus_seconds(DAY_SECONDS),
        };
        Ok(
            Payload {
                hash_id,
                content,
                mime_type: mime,
                created_at: now,
                updated_at: now,
                viewed_at: None,
                expiry_time: expiry,
            },
        )
    }

    /// Creates a new payload with the given content: the clock is read for
    /// its creation time and a random identifier is drawn for it.
    ///
    /// Content and MIME type decide alone whether a payload is made, and
    /// all that the clock and the draw add is the creation time and the
    /// identifier.
    pub fn new(content: String, mime_type: Option<String>, expiry_time: Option<Timestamp>) -> (made:
        Result<Payload, PayloadError>)
        ensures
            match made {
                Ok(payload) => assembled(
                    content@,
                    text_of(mime_type),
                    expiry_time,
                    payload@.created_at,
                    payload@.hash_id,
                ) == Ok::<PayloadView, Seq<char>>(payload@) && is_simple_uuid_v4(payload@.hash_id),
                Err(error) => refusal(content@, text_of(mime_type)) == Some(
                    payload_error_text(error),
                ),
            },
    {
        let now = utc_now();
        let hash_id = HashId::new();
        Payload::assemble(content, mime_type, expiry_time, now, hash_id)
    }

    /// Whether the payload has expired at `now`: whether `now` lies after
    /// its expiry.
    pub fn is_expired_at(&self, now: Timestamp) -> (expired: bool)
        ensures
            expired == now.is_after(self@.expiry_time),
    {
        now.after(&self.expiry_time)
    }

    /// Returns true if the payload has expired by the system clock: the
    /// answer of [`Self::is_expired_at`] for the reading of the clock.
    pub fn is_expired(&self) -> (expired: bool) {
        let now = utc_now();
        self.is_expired_at(now)
    }

    /// Records that the payload was viewed at `now`.
    pub fn mark_viewed_at(&mut self, now: Timestamp)
        ensures
            final(self)@ == (PayloadView { viewed_at: Some(now), ..old(self)@ }),
    {
        self.viewed_at = Some(now);
    }

    /// Records that the payload was viewed at the current time.
    pub fn mark_viewed(&mut self)
        ensures
            final(self)@.viewed_at is Some,
            final(self)@ == (PayloadView { viewed_at: final(self)@.viewed_at, ..old(self)@ }),
    {
        let now = utc_now();
        self.mark_viewed_at(now);
    }

    /// Returns the unique identifier of the payload.
    pub fn hash_id(&self) -> (id: &HashId)
        ensures
            id@ == self@.hash_id,
    {
        &self.hash_id
    }

    /// Returns the content of the payload.
    pub fn content(&self) -> (content: &str)
        ensures
            content@ == self@.content,
    {
        self.content.as_str()
    }

    /// Returns the MIME type of the payload.
    pub fn mime_type(&self) -> (mime: &MimeType)
        ensures
            *mime == self@.mime_type,
    {
        &self.mime_type
    }

    /// Returns when the payload was created.
    pub fn created_at(&self) -> (at: Timestamp)
        ensures
            at == self@.created_at,
    {
        self.created_at
    }

    /// Returns when the payload was last updated.
    pub fn updated_at(&self) -> (at: Timestamp)
        ensures
            at == self@.updated_at,
    {
        self.updated_at
    }

    /// Returns when the payload was last viewed, if ever.
    pub fn viewed_at(&self) -> (at: Option<Timestamp>)
        ensures
            at == self@.viewed_at,
    {
        self.viewed_at
    }

    /// Returns when the payload will expire.
    pub fn expiry_time(&self) -> (at: Timestamp)
        ensures
            at == self@.expiry_time,
    {
        self.expiry_time
    }

    /// Puts a payload together from its stored parts, as they stand.
    pub fn from_parts(
        hash_id: HashId,
        content: String,
        mime_type: MimeType,
        created_at: Timestamp,
        updated_at: Timestamp,
        viewed_at: Option<Timestamp>,
        expiry_time: Timestamp,
    ) -> (payload: Payload)
        ensures
            payload@ == (PayloadView {
                hash_id: hash_id@,
                content: content@,
                mime_type,
                created_at,
                updated_at,
                viewed_at,
                expiry_time,
            }),
    {
        Payload { hash_id, content, mime_type, created_at, updated_at, viewed_at, expiry_time }
    }
}

} // verus!
