//! Sliding-window rate limiting over a shared sorted-set store.
//!
//! One sorted set per client records the arrival time of every request
//! attempt. A request is allowed while the number of attempts recorded in
//! the trailing window, the current one included, does not exceed the
//! configured quota.

use vstd::prelude::*;
use vstd::string::StringExecFns;
use crate::text::{decimal, decimal_string};

pub mod decision;
pub mod laws;
pub mod limiter;
pub mod protocol;
pub mod store;
pub mod window;

pub use decision::{Decision, ErrorKind, StoreError};
pub use limiter::{check, InMemoryRateLimiter};
pub use protocol::{begin, CheckSession, Phase, Step, StoreOp, StoreReply};
pub use store::MemoryStore;
pub use window::WindowEntry;


verus! {

/// Quota of a limiter: at most `max_requests` attempts in any trailing
/// interval of `window_seconds` seconds.
#[derive(Debug, Clone, Copy, PartialEq, Eq, Structural)]
pub struct RateLimitConfig {
    /// Maximum number of requests allowed in the window.
    pub max_requests: u32,
    /// Width of the window in seconds.
    pub window_seconds: u32,
}

impl RateLimitConfig {
    /// A usable configuration has a window of at least one second. A quota
    /// of zero is accepted: it denies every request.
    pub open spec fn well_formed(self) -> bool {
        self.window_seconds > 0
    }

    /// Lowest score that still lies in the window ending at `now`.
    pub open spec fn window_start(self, now: u64) -> u64 {
        if now >= self.window_seconds {
            (now - self.window_seconds) as u64
        } else {
            0
        }
    }

    /// Lifetime given to a client's key on every check: twice the window.
    pub open spec fn key_ttl(self) -> u64 {
        (2 * self.window_seconds) as u64
    }

    /// Computes [`Self::window_start`]. Scores are seconds since the epoch
    /// and never negative, so a window reaching before the epoch starts at 0.
    pub fn window_start_at(&self, now: u64) -> (start: u64)
        ensures
            start == self.window_start(now),
            start <= now,
            now - start <= self.window_seconds,
    {
        let width: u64 = self.window_seconds as u64;
        if now >= width {
            now - width
        } else {
            0
        }
    }

    /// Computes [`Self::key_ttl`].
    pub fn key_ttl_seconds(&self) -> (ttl: u64)
        ensures
            ttl == self.key_ttl(),
            ttl == 2 * self.window_seconds,
    {
        2 * (self.window_seconds as u64)
    }
}

impl Default for RateLimitConfig {
    fn default() -> (config: Self)
        ensures
            config.max_requests == 100,
            config.window_seconds == 60,
    {
        RateLimitConfig { max_requests: 100, window_seconds: 60 }
    }
}

/// Why a request was not let through, as the HTTP layer consumes it.
#[derive(Debug, Clone, PartialEq, Eq)]
pub enum RateLimitError {
    /// The backing store could not be used; the text says why.
    Redis(String),
    /// The quota is exhausted; retry after this many seconds.
    LimitExceeded(u64),
}

/// Text of the message that tells a client when to retry.
pub open spec fn limit_exceeded_text(wait_seconds: u64) -> Seq<char> {
    "Rate limit exceeded. Try again in "@ + decimal(wait_seconds as nat) + " seconds"@
}

/// Text of a rate-limit error.
pub open spec fn rate_limit_error_text(error: RateLimitError) -> Seq<char> {
    match error {
        RateLimitError::Redis(detail) => "Redis error: "@ + detail@,
        RateLimitError::LimitExceeded(wait_seconds) => limit_exceeded_text(wait_seconds),
    }
}

/// Writes the message that tells a client when to retry.
pub fn limit_exceeded_message(wait_seconds: u64) -> (text: String)
    ensures
        text@ == limit_exceeded_text(wait_seconds),
{
    let number = decimal_string(wait_seconds);
    String::from_str("Rate limit exceeded. Try again in ").concat(number.as_str()).concat(
        " seconds",
    )
}

impl RateLimitError {
    /// The message of the error.
    pub fn to_string(&self) -> (text: String)
        ensures
            text@ == rate_limit_error_text(*self),
    {
        match self {
            RateLimitError::Redis(detail) => String::from_str("Redis error: ").concat(
                detail.as_str(),
            ),
            RateLimitError::LimitExceeded(wait_seconds) => limit_exceeded_message(*wait_seconds),
        }
    }
}

/// Something that decides whether a client's request may pass.
pub trait RateLimiter: Sized {
    /// Whether a limiter that stands as `self` may answer a request of the
    /// client `key` with `result` and stand as `after` when it has. Every
    /// limiter says for itself what its answers are; one that says nothing
    /// may answer anything.
    open spec fn answers(
        self,
        key: Seq<char>,
        result: Result<(), RateLimitError>,
        after: Self,
    ) -> bool {
        true
    }

    /// Checks one request of the client `key`: `Ok(())` if it is allowed,
    /// the reason otherwise.
    fn check_rate_limit(&mut self, key: &str) -> (result: Result<(), RateLimitError>)
        ensures
            (*old(self)).answers(key@, result, *final(self)),
    ;
}

} // verus!
