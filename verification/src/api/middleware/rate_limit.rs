//! Rate limiting at the door of the API.
//!
//! A denied request is turned away with status 429 and the wait hint. A
//! failure of the limiter's store does not turn a request away: the
//! policy of this middleware is to fail open, so that an outage of the
//! store does not take the service down with it.

use vstd::prelude::*;
use vstd::string::StringExecFns;
use crate::api::http::{Severity, TOO_MANY_REQUESTS};
use crate::infrastructure::rate_limit::{
    limit_exceeded_message, limit_exceeded_text, RateLimitError, RateLimiter,
};

verus! {

/// What the middleware does with a request.
#[derive(Debug, Clone, PartialEq, Eq)]
pub enum Admission {
    /// Hand the request on to the service.
    Proceed,
    /// Hand the request on although the limiter failed; the text is the
    /// failure, for the log.
    ProceedUnchecked(String),
    /// Turn the request away with this status and message.
    Reject { status: u16, message: String, retry_after: u64 },
}

/// Name under which a client is limited when its address is not known.
pub open spec fn unknown_client() -> Seq<char> {
    "unknown"@
}

/// The key under which a client is limited: its address, or `unknown`.
pub fn client_key(address: Option<&str>) -> (key: String)
    ensures
        key@ == match address {
            Some(a) => a@,
            None => unknown_client(),
        },
{
    match address {
        Some(a) => String::from_str(a),
        None => String::from_str("unknown"),
    }
}

/// Whether `admission` is what the middleware does with a request that
/// the limiter answered with `result`: an allowed request proceeds, a
/// denied one is rejected with status 429 and the wait hint, and one that
/// the limiter could not check proceeds with the failure noted.
pub open spec fn admits(admission: Admission, result: Result<(), RateLimitError>) -> bool {
    match result {
        Ok(()) => admission is Proceed,
        Err(RateLimitError::LimitExceeded(wait)) => admission matches Admission::Reject {
            status,
            message,
            retry_after,
        } && status == TOO_MANY_REQUESTS && retry_after == wait && message@ == limit_exceeded_text(
            wait,
        ),
        Err(RateLimitError::Redis(detail)) => admission matches Admission::ProceedUnchecked(text)
            && text@ == detail@,
    }
}

/// The key under which the client at `address` is limited.
pub open spec fn client_key_of(address: Option<&str>) -> Seq<char> {
    match address {
        Some(a) => a@,
        None => unknown_client(),
    }
}

/// Decides what to do with a request from what the limiter answered.
pub fn admission_for(result: Result<(), RateLimitError>) -> (admission: Admission)
    ensures
        admits(admission, result),
{
    match result {
        Ok(()) => Admission::Proceed,
        Err(RateLimitError::LimitExceeded(wait)) => Admission::Reject {
            status: TOO_MANY_REQUESTS,
            message: limit_exceeded_message(wait),
            retry_after: wait,
        },
        Err(RateLimitError::Redis(detail)) => Admission::ProceedUnchecked(detail),
    }
}

impl Admission {
    /// Whether the request is handed on to the service.
    pub fn lets_through(&self) -> (through: bool)
        ensures
            through == !(*self is Reject),
    {
        match self {
            Admission::Reject { .. } => false,
            _ => true,
        }
    }

    /// Severity with which the admission is noted in the log.
    pub fn severity(&self) -> (severity: Severity)
        ensures
            severity == match *self {
                Admission::Proceed => Severity::Debug,
                Admission::ProceedUnchecked(_) => Severity::Error,
                Admission::Reject { .. } => Severity::Warn,
            },
    {
        match self {
            Admission::Proceed => Severity::Debug,
            Admission::ProceedUnchecked(_) => Severity::Error,
            Admission::Reject { .. } => Severity::Warn,
        }
    }
}

/// Rate limiting middleware: a limiter and the policy of what to do with
/// its answers.
pub struct RateLimitMiddleware<T> where T: RateLimiter {
    limiter: T,
}

impl<T> RateLimitMiddleware<T> where T: RateLimiter {
    /// A middleware that asks `limiter`.
    pub fn new(limiter: T) -> (middleware: Self)
        ensures
            middleware.limiter_view() == limiter,
    {
        RateLimitMiddleware { limiter }
    }

    /// The limiter that the middleware asks.
    pub closed spec fn limiter_view(self) -> T {
        self.limiter
    }

    /// Asks the limiter about a request of the client at `address` and
    /// decides what to do with the request.
    ///
    /// The limiter is asked once, under the client's key, and the
    /// admission is what [`admission_for`] makes of its answer: only a
    /// denial turns the request away, and then with status 429.
    pub fn screen(&mut self, address: Option<&str>) -> (admission: Admission)
        ensures
            exists|result: Result<(), RateLimitError>|
                #![trigger admits(admission, result)]
                old(self).limiter_view().answers(
                    client_key_of(address),
                    result,
                    final(self).limiter_view(),
                ) && admits(admission, result),
            admission matches Admission::Reject { status, message, retry_after } ==> status
                == TOO_MANY_REQUESTS && message@ == limit_exceeded_text(retry_after),
    {
        let key = client_key(address);
        let result = self.limiter.check_rate_limit(key.as_str());
        let ghost answer = result;
        let admission = admission_for(result);
        assert(old(self).limiter_view().answers(
            client_key_of(address),
            answer,
            self.limiter_view(),
        ) && admits(admission, answer));
        admission
    }
}

} // verus!
