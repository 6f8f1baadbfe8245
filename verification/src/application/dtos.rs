//! Data transfer objects of the API, and the rules that a request must
//! meet before a payload is made of it.

use vstd::prelude::*;
use vstd::string::StringExecFns;
use vstd::string::StrSliceExecFns;
use crate::domain::payload::{Payload, PayloadView};
use crate::domain::time::Timestamp;

verus! {

/// Longest content that a request may carry, in characters.
pub const MAX_CONTENT_CHARS: usize = 1_048_576;

/// Request for creating a new payload.
#[derive(Debug, Clone, PartialEq, Eq)]
pub struct CreatePayloadRequest {
    /// The content to be shared. Must not be empty.
    pub content: String,
    /// Optional MIME type of the content; `text/plain` when absent.
    pub mime_type: Option<String>,
    /// Optional expiry time; 24 hours from creation when absent.
    pub expiry_time: Option<Timestamp>,
}

/// A rule that a request breaks.
#[derive(Debug, Clone, Copy, PartialEq, Eq, Structural)]
pub enum ValidationFailure {
    /// The content has no character.
    EmptyContent,
    /// The content has more than [`MAX_CONTENT_CHARS`] characters.
    ContentTooLong,
    /// The MIME type is not of the form `type/subtype`.
    MimeTypeFormat,
}

/// Whether `c` may stand in the type part of a MIME type: a lower-case
/// letter.
pub open spec fn is_type_char(c: char) -> bool {
    'a' <= c && c <= 'z'
}

/// Whether `c` may stand in the subtype part of a MIME type: a lower-case
/// letter, a digit, a dot, a plus or a hyphen.
pub open spec fn is_subtype_char(c: char) -> bool {
    is_type_char(c) || ('0' <= c && c <= '9') || c == '.' || c == '+' || c == '-'
}

/// Whether `text` has the form of a MIME type: one or more type
/// characters, a slash, one or more subtype characters, and nothing else.
pub open spec fn is_mime_format(text: Seq<char>) -> bool {
    exists|slash: int|
        {
            &&& 1 <= slash < text.len() - 1
            &&& #[trigger] text[slash] == '/'
            &&& forall|i: int| 0 <= i < slash ==> is_type_char(#[trigger] text[i])
            &&& forall|i: int| slash < i < text.len() ==> is_subtype_char(#[trigger] text[i])
        }
}

/// The first rule that a request breaks, content before MIME type, if it
/// breaks one.
pub open spec fn first_failure(content: Seq<char>, mime_type: Option<Seq<char>>) -> Option<
    ValidationFailure,
> {
    if content.len() == 0 {
        Some(ValidationFailure::EmptyContent)
    } else if content.len() > MAX_CONTENT_CHARS {
        Some(ValidationFailure::ContentTooLong)
    } else if mime_type is Some && !is_mime_format(mime_type->0) {
        Some(ValidationFailure::MimeTypeFormat)
    } else {
        None
    }
}

/// Text of a broken rule.
pub open spec fn failure_text(failure: ValidationFailure) -> Seq<char> {
    match failure {
        ValidationFailure::EmptyContent => "Content cannot be empty"@,
        ValidationFailure::ContentTooLong => "Content cannot exceed 1MB"@,
        ValidationFailure::MimeTypeFormat => "Invalid MIME type format"@,
    }
}

impl ValidationFailure {
    /// The message of the broken rule.
    pub fn message(&self) -> (text: String)
        ensures
            text@ == failure_text(*self),
    {
        match self {
            ValidationFailure::EmptyContent => String::from_str("Content cannot be empty"),
            ValidationFailure::ContentTooLong => String::from_str("Content cannot exceed 1MB"),
            ValidationFailure::MimeTypeFormat => String::from_str("Invalid MIME type format"),
        }
    }
}

/// Decides [`is_type_char`] on the byte of an ASCII character.
fn type_byte(b: u8) -> (ok: bool)
    ensures
        ok == is_type_char(b as char),
{
    b >= 97 && b <= 122
}

/// Decides [`is_subtype_char`] on the byte of an ASCII character.
fn subtype_byte(b: u8) -> (ok: bool)
    ensures
        ok == is_subtype_char(b as char),
{
    type_byte(b) || (b >= 48 && b <= 57) || b == 46 || b == 43 || b == 45
}

/// Decides whether `text` has the form of a MIME type.
pub fn has_mime_format(text: &str) -> (ok: bool)
    ensures
        ok == is_mime_format(text@),
{
    if !text.is_ascii() {
        proof {
            if is_mime_format(text@) {
                let slash = choose|slash: int|
                    {
                        &&& 1 <= slash < text@.len() - 1
                        &&& #[trigger] text@[slash] == '/'
                        &&& forall|i: int| 0 <= i < slash ==> is_type_char(#[trigger] text@[i])
                        &&& forall|i: int|
                            slash < i < text@.len() ==> is_subtype_char(#[trigger] text@[i])
                    };
                assert forall|i: int| 0 <= i < text@.len() implies (text@[i] as u32) < 128 by {
                    if i < slash {
                        assert(is_type_char(text@[i]));
                    } else if i > slash {
                        assert(is_subtype_char(text@[i]));
                    }
                }
                assert(vstd::string::is_ascii(text));
            }
        }
        return false;
    }
    let n: usize = text.unicode_len();
    let mut slash: usize = 0;
    while slash < n && type_byte(text.get_ascii(slash))
        invariant
            slash <= n,
            n == text@.len(),
            text.is_ascii(),
            forall|i: int| 0 <= i < slash ==> is_type_char(#[trigger] text@[i]),
        decreases n - slash,
    {
        proof {
            let c = text@[slash as int];
            assert((c as u32) < 128);
            assert((c as u8) as char == c);
        }
        slash += 1;
    }
    if slash == 0 || slash >= n || text.get_ascii(slash) != 47 {
        proof {
            if slash < n {
                let c = text@[slash as int];
                assert((c as u32) < 128);
                assert((c as u8) as char == c);
            }
            if is_mime_format(text@) {
                let s = choose|s: int|
                    {
                        &&& 1 <= s < text@.len() - 1
                        &&& #[trigger] text@[s] == '/'
                        &&& forall|i: int| 0 <= i < s ==> is_type_char(#[trigger] text@[i])
                        &&& forall|i: int|
                            s < i < text@.len() ==> is_subtype_char(#[trigger] text@[i])
                    };
                if s < slash {
                    assert(is_type_char(text@[s]));
                } else if s > slash {
                    assert(is_type_char(text@[slash as int]));
                }
            }
        }
        return false;
    }
    proof {
        let c = text@[slash as int];
        assert((c as u32) < 128);
        assert((c as u8) as char == c);
        assert(c == '/');
    }
    let mut i: usize = slash + 1;
    while i < n && subtype_byte(text.get_ascii(i))
        invariant
            slash < i <= n,
            n == text@.len(),
            text.is_ascii(),
            forall|k: int| slash < k < i ==> is_subtype_char(#[trigger] text@[k]),
        decreases n - i,
    {
        proof {
            let c = text@[i as int];
            assert((c as u32) < 128);
            assert((c as u8) as char == c);
        }
        i += 1;
    }
    let ok = i == n && n > slash + 1;
    proof {
        if i < n {
            let c = text@[i as int];
            assert((c as u32) < 128);
            assert((c as u8) as char == c);
            assert(!is_subtype_char(c));
        }
        if ok {
            assert(1 <= slash < text@.len() - 1 && text@[slash as int] == '/');
        } else if is_mime_format(text@) {
            let s = choose|s: int|
                {
                    &&& 1 <= s < text@.len() - 1
                    &&& #[trigger] text@[s] == '/'
                    &&& forall|k: int| 0 <= k < s ==> is_type_char(#[trigger] text@[k])
                    &&& forall|k: int| s < k < text@.len() ==> is_subtype_char(#[trigger] text@[k])
                };
            if s < slash {
                assert(is_type_char(text@[s]));
            } else if s > slash {
                assert(is_type_char(text@[slash as int]));
            } else if i < n {
                assert(is_subtype_char(text@[i as int]));
            }
        }
    }
    ok
}

impl CreatePayloadRequest {
    /// Holds the request to the rules: content of 1 to 1,048,576
    /// characters, and a MIME type, where one is given, of the form
    /// `type/subtype`. Names the first rule broken.
    pub fn validate(&self) -> (checked: Result<(), ValidationFailure>)
        ensures
            match checked {
                Ok(()) => first_failure(self.content@, crate::domain::payload::text_of(
                    self.mime_type,
                )) is None,
                Err(failure) => first_failure(self.content@, crate::domain::payload::text_of(
                    self.mime_type,
                )) == Some(failure),
            },
    {
        let length: usize = self.content.as_str().unicode_len();
        if length == 0 {
            return Err(ValidationFailure::EmptyContent);
        }
        if length > MAX_CONTENT_CHARS {
            return Err(ValidationFailure::ContentTooLong);
        }
        match &self.mime_type {
            Some(name) => {
                if !has_mime_format(name.as_str()) {
                    return Err(ValidationFailure::MimeTypeFormat);
                }
            },
            None => {},
        }
        Ok(())
    }
}

/// What the API tells about a payload: the response to creating one and to
/// retrieving one.
#[derive(Debug, Clone, PartialEq, Eq)]
pub struct PayloadDetails {
    /// The unique identifier for accessing the payload.
    pub hash_id: String,
    /// The stored content.
    pub content: String,
    /// The MIME type of the content.
    pub mime_type: String,
    /// When the payload was created.
    pub created_at: Timestamp,
    /// When the payload was last updated.
    pub updated_at: Timestamp,
    /// When the payload was last viewed, if ever.
    pub viewed_at: Option<Timestamp>,
    /// When the payload will expire.
    pub expiry_time: Timestamp,
}

/// Response to the creation of a payload.
pub type CreatePayloadResponse = PayloadDetails;

/// Response to the retrieval of a payload.
pub type GetPayloadResponse = PayloadDetails;

impl PayloadDetails {
    /// Whether the details are those of `payload`.
    pub open spec fn describes(&self, payload: PayloadView) -> bool {
        &&& self.hash_id@ == payload.hash_id
        &&& self.content@ == payload.content
        &&& self.mime_type@ == payload.mime_type.name()
        &&& self.created_at == payload.created_at
        &&& self.updated_at == payload.updated_at
        &&& self.viewed_at == payload.viewed_at
        &&& self.expiry_time == payload.expiry_time
    }

    /// The details of a payload.
    pub fn of(payload: &Payload) -> (details: PayloadDetails)
        ensures
            details.describes(payload@),
    {
        PayloadDetails {
            hash_id: String::from_str(payload.hash_id().as_string()),
            content: String::from_str(payload.content()),
            mime_type: payload.mime_type().to_string(),
            created_at: payload.created_at(),
            updated_at: payload.updated_at(),
            viewed_at: payload.viewed_at(),
            expiry_time: payload.expiry_time(),
        }
    }
}

/// Error response of the API.
#[derive(Debug, Clone, PartialEq, Eq)]
pub struct ErrorResponse {
    /// The error message.
    pub error: String,
    /// For rate limit errors, the seconds after which to retry.
    pub retry_after: Option<i32>,
}

/// The retry hint of an error response: the wait in seconds, held to what
/// the field can express.
pub open spec fn retry_hint(wait_seconds: u64) -> i32 {
    if wait_seconds > i32::MAX {
        i32::MAX
    } else {
        wait_seconds as i32
    }
}

impl ErrorResponse {
    /// An error response without a retry hint.
    pub fn new(error: String) -> (response: ErrorResponse)
        ensures
            response.error@ == error@,
            response.retry_after is None,
    {
        ErrorResponse { error, retry_after: None }
    }

    /// The error response to a client that exhausted its quota and may
    /// retry in `wait_seconds` seconds.
    pub fn rate_limited(wait_seconds: u64) -> (response: ErrorResponse)
        ensures
            response.error@ == crate::infrastructure::rate_limit::limit_exceeded_text(wait_seconds),
            response.retry_after == Some(retry_hint(wait_seconds)),
    {
        let hint: i32 = if wait_seconds > i32::MAX as u64 {
            i32::MAX
        } else {
            wait_seconds as i32
        };
        ErrorResponse {
            error: crate::infrastructure::rate_limit::limit_exceeded_message(wait_seconds),
            retry_after: Some(hint),
        }
    }
}

} // verus!
