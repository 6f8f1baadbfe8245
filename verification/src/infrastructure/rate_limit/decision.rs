//! What a check answers, and the wait hint that goes with a denial.

use vstd::prelude::*;
use vstd::string::StringExecFns;
use super::RateLimitConfig;
use super::RateLimitError;

verus! {

/// Why an operation on the backing store did not take effect.
#[derive(Debug, Clone, Copy, PartialEq, Eq, Structural)]
pub enum StoreError {
    /// The store could not be reached.
    Connection,
    /// The store did not answer in time.
    Timeout,
    /// The store answered with something that the operation cannot mean.
    Protocol,
}

/// The kinds of failure that a check reports instead of a verdict.
#[derive(Debug, Clone, Copy, PartialEq, Eq, Structural)]
pub enum ErrorKind {
    /// An operation on the backing store failed.
    StoreUnavailable(StoreError),
}

/// Answer of one check.
#[derive(Debug, Clone, Copy, PartialEq, Eq, Structural)]
pub enum Decision {
    /// The request is within the quota.
    Allow,
    /// The quota is exhausted; the argument is the wait hint in seconds.
    Deny(u32),
    /// No verdict could be reached. Whether the request then passes is the
    /// caller's policy.
    Error(ErrorKind),
}

/// Seconds until the oldest counted attempt leaves the window, never less
/// than one. Without an oldest attempt the hint is the whole window.
pub open spec fn wait_hint(window_seconds: u32, now: u64, oldest: Option<u64>) -> int {
    match oldest {
        Some(t) => {
            let remaining = window_seconds - (now - t);
            if remaining < 1 {
                1
            } else {
                remaining
            }
        },
        None => window_seconds as int,
    }
}

/// The wait hint as a denial carries it: [`wait_hint`], held to what `u32`
/// can express. The cap is reached only when the oldest attempt is scored
/// in the future of `now`.
pub open spec fn denial_wait(window_seconds: u32, now: u64, oldest: Option<u64>) -> u32 {
    let hint = wait_hint(window_seconds, now, oldest);
    if hint > u32::MAX {
        u32::MAX
    } else {
        hint as u32
    }
}

/// Whether the score `oldest`, if there is one, does not lie after `now`.
pub open spec fn not_after(oldest: Option<u64>, now: u64) -> bool {
    match oldest {
        Some(t) => t <= now,
        None => true,
    }
}

/// The verdict that follows from the number of attempts counted in the
/// window, the current one included.
pub open spec fn verdict(config: RateLimitConfig, now: u64, count: u64, oldest: Option<u64>) -> Decision {
    if count <= config.max_requests {
        Decision::Allow
    } else {
        Decision::Deny(denial_wait(config.window_seconds, now, oldest))
    }
}

/// Text of a store error.
pub open spec fn store_error_text(error: StoreError) -> Seq<char> {
    match error {
        StoreError::Connection => "connection failure"@,
        StoreError::Timeout => "timeout"@,
        StoreError::Protocol => "protocol error"@,
    }
}

impl StoreError {
    /// A short description of the failure.
    pub fn describe(&self) -> (text: String)
        ensures
            text@ == store_error_text(*self),
    {
        match self {
            StoreError::Connection => String::from_str("connection failure"),
            StoreError::Timeout => String::from_str("timeout"),
            StoreError::Protocol => String::from_str("protocol error"),
        }
    }
}

/// Computes the wait hint of a denial.
pub fn wait_seconds(config: &RateLimitConfig, now: u64, oldest: Option<u64>) -> (wait: u32)
    ensures
        wait == denial_wait(config.window_seconds, now, oldest),
        config.well_formed() && not_after(oldest, now) ==> 1 <= wait <= config.window_seconds,
{
    let width: u32 = config.window_seconds;
    match oldest {
        None => width,
        Some(t) => {
            if t <= now {
                let age: u64 = now - t;
                if age >= width as u64 {
                    1
                } else {
                    let left: u64 = width as u64 - age;
                    left as u32
                }
            } else {
                let ahead: u64 = t - now;
                if ahead >= (u32::MAX - width) as u64 {
                    u32::MAX
                } else {
                    let hint: u64 = width as u64 + ahead;
                    hint as u32
                }
            }
        },
    }
}

/// Computes the verdict from the count and, for a denial, the score of the
/// oldest entry.
pub fn decide(config: &RateLimitConfig, now: u64, count: u64, oldest: Option<u64>) -> (decision:
    Decision)
    ensures
        decision == verdict(*config, now, count, oldest),
        decision is Allow <==> count <= config.max_requests,
        decision !is Error,
{
    if count <= config.max_requests as u64 {
        Decision::Allow
    } else {
        Decision::Deny(wait_seconds(config, now, oldest))
    }
}

/// Whether `result` is the form in which the HTTP layer is told of
/// `decision`: `Ok` for an allowed request, `LimitExceeded` with the wait
/// hint for a denied one, `Redis` with the description of the failure
/// where the store failed.
pub open spec fn reports(result: Result<(), RateLimitError>, decision: Decision) -> bool {
    match decision {
        Decision::Allow => result is Ok,
        Decision::Deny(wait) => result == Err::<(), RateLimitError>(
            RateLimitError::LimitExceeded(wait as u64),
        ),
        Decision::Error(ErrorKind::StoreUnavailable(e)) => result matches Err(
            RateLimitError::Redis(text),
        ) && text@ == store_error_text(e),
    }
}

impl Decision {
    /// Turns the answer into the result that the HTTP layer consumes: a
    /// denial becomes `LimitExceeded` with the wait hint, a store failure
    /// becomes `Redis` with its description.
    pub fn into_result(self) -> (result: Result<(), RateLimitError>)
        ensures
            reports(result, self),
            self is Allow <==> result is Ok,
            self matches Decision::Deny(wait) ==> result == Err::<(), RateLimitError>(
                RateLimitError::LimitExceeded(wait as u64),
            ),
            self matches Decision::Error(ErrorKind::StoreUnavailable(e)) ==> (result matches Err(
                RateLimitError::Redis(text),
            ) && text@ == store_error_text(e)),
    {
        match self {
            Decision::Allow => Ok(()),
            Decision::Deny(wait) => Err(RateLimitError::LimitExceeded(wait as u64)),
            Decision::Error(ErrorKind::StoreUnavailable(e)) => Err(RateLimitError::Redis(e.describe())),
        }
    }
}

} // verus!
