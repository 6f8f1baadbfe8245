//! The check as a conversation with the store.
//!
//! A check issues up to five operations on one window key, in a fixed
//! order, and reads one reply after each. The functions here only decide:
//! given the reply to the operation in flight they name the next operation
//! or the final answer. Whoever holds the connection to the store performs
//! the operations and hands the replies back.

use vstd::prelude::*;
use vstd::string::StringExecFns;
use super::RateLimitConfig;
use super::decision::{denial_wait, wait_seconds, Decision, ErrorKind, StoreError};
use super::window::{EntryView, WindowEntry};

verus! {

/// The operation whose reply a check is waiting for.
#[derive(Debug, Clone, Copy, PartialEq, Eq, Structural)]
pub enum Phase {
    /// Recording the current attempt.
    Insert,
    /// Re-arming the key's lifetime.
    SetTtl,
    /// Evicting the entries that left the window.
    Purge,
    /// Counting the entries in the window.
    Count,
    /// Fetching the oldest entry for the wait hint.
    Oldest,
}

impl Phase {
    /// Number of operations that a check in this phase may still issue,
    /// the one in flight included.
    pub open spec fn operations_left(self) -> nat {
        match self {
            Phase::Insert => 5,
            Phase::SetTtl => 4,
            Phase::Purge => 3,
            Phase::Count => 2,
            Phase::Oldest => 1,
        }
    }
}

/// An operation on the window of one key.
#[derive(Debug, Clone, PartialEq, Eq)]
pub enum StoreOp {
    /// Record `entry_id` with score `timestamp`, idempotent by member.
    Insert { entry_id: String, timestamp: u64 },
    /// Let the key expire `seconds` from now.
    SetTtl { seconds: u64 },
    /// Remove every entry scored strictly less than `threshold`.
    PurgeOlderThan { threshold: u64 },
    /// Count the entries scored `threshold` or more.
    CountSince { threshold: u64 },
    /// Fetch the entry with the lowest score.
    OldestEntry,
}

/// An operation as mathematics sees it.
pub enum OpView {
    Insert { entry_id: Seq<char>, timestamp: u64 },
    SetTtl { seconds: u64 },
    PurgeOlderThan { threshold: u64 },
    CountSince { threshold: u64 },
    OldestEntry,
}

impl View for StoreOp {
    type V = OpView;

    open spec fn view(&self) -> OpView {
        match *self {
            StoreOp::Insert { entry_id, timestamp } => OpView::Insert { entry_id: entry_id@, timestamp },
            StoreOp::SetTtl { seconds } => OpView::SetTtl { seconds },
            StoreOp::PurgeOlderThan { threshold } => OpView::PurgeOlderThan { threshold },
            StoreOp::CountSince { threshold } => OpView::CountSince { threshold },
            StoreOp::OldestEntry => OpView::OldestEntry,
        }
    }
}

/// What the store answered to an operation.
#[derive(Debug, Clone, PartialEq, Eq)]
pub enum StoreReply {
    /// The operation took effect; it returns nothing.
    Done,
    /// Answer to `CountSince`.
    Count(u64),
    /// Answer to `OldestEntry`; `None` when the window is empty.
    Oldest(Option<WindowEntry>),
    /// The operation failed and had no effect.
    Failed(StoreError),
}

/// A reply as mathematics sees it.
pub enum ReplyView {
    Done,
    Count(u64),
    Oldest(Option<EntryView>),
    Failed(StoreError),
}

impl View for StoreReply {
    type V = ReplyView;

    open spec fn view(&self) -> ReplyView {
        match *self {
            StoreReply::Done => ReplyView::Done,
            StoreReply::Count(count) => ReplyView::Count(count),
            StoreReply::Oldest(Some(entry)) => ReplyView::Oldest(Some(entry@)),
            StoreReply::Oldest(None) => ReplyView::Oldest(None),
            StoreReply::Failed(error) => ReplyView::Failed(error),
        }
    }
}

/// A check in progress: the quota, the clock reading taken at its start,
/// the key of the client's window and the operation in flight.
#[derive(Debug, Clone, PartialEq, Eq)]
pub struct CheckSession {
    config: RateLimitConfig,
    now: u64,
    window_key: String,
    phase: Phase,
}

/// A check in progress as mathematics sees it.
pub struct SessionView {
    pub config: RateLimitConfig,
    pub now: u64,
    pub window_key: Seq<char>,
    pub phase: Phase,
}

impl View for CheckSession {
    type V = SessionView;

    closed spec fn view(&self) -> SessionView {
        SessionView {
            config: self.config,
            now: self.now,
            window_key: self.window_key@,
            phase: self.phase,
        }
    }
}

/// What a check does next.
#[derive(Debug, Clone, PartialEq, Eq)]
pub enum Step {
    /// Perform the operation on the session's window key and hand the
    /// reply to the session.
    Issue(CheckSession, StoreOp),
    /// The check is over.
    Finished(Decision),
}

/// A step as mathematics sees it.
pub enum StepView {
    Issue(SessionView, OpView),
    Finished(Decision),
}

impl View for Step {
    type V = StepView;

    open spec fn view(&self) -> StepView {
        match *self {
            Step::Issue(session, op) => StepView::Issue(session@, op@),
            Step::Finished(decision) => StepView::Finished(decision),
        }
    }
}

/// Key of the window that holds a client's attempts.
pub open spec fn window_key(client_key: Seq<char>) -> Seq<char> {
    "rate_limit:"@ + client_key
}

/// Distinct clients have distinct window keys.
pub proof fn lemma_window_key_injective(a: Seq<char>, b: Seq<char>)
    ensures
        window_key(a) == window_key(b) <==> a == b,
{
    let prefix = "rate_limit:"@;
    if window_key(a) == window_key(b) {
        assert(a =~= window_key(a).subrange(prefix.len() as int, window_key(a).len() as int));
        assert(b =~= window_key(b).subrange(prefix.len() as int, window_key(b).len() as int));
    }
}

/// Computes the key of the window that holds a client's attempts.
pub fn window_key_for(client_key: &str) -> (key: String)
    ensures
        key@ == window_key(client_key@),
{
    String::from_str("rate_limit:").concat(client_key)
}

/// Score of the entry that an `OldestEntry` reply carries, if it carries one.
pub open spec fn score_of(found: Option<EntryView>) -> Option<u64> {
    match found {
        Some(entry) => Some(entry.timestamp),
        None => None,
    }
}

/// The failure that a check reports for a store error.
pub open spec fn unavailable(error: StoreError) -> StepView {
    StepView::Finished(Decision::Error(ErrorKind::StoreUnavailable(error)))
}

/// The session and first operation of a check: the attempt is recorded
/// before anything is known about the verdict.
pub open spec fn start(
    config: RateLimitConfig,
    client_key: Seq<char>,
    now: u64,
    entry_id: Seq<char>,
) -> (SessionView, OpView) {
    (
        SessionView { config, now, window_key: window_key(client_key), phase: Phase::Insert },
        OpView::Insert { entry_id, timestamp: now },
    )
}

/// The step that follows the reply to the operation in flight.
///
/// A failed operation ends the check with that failure, whatever the
/// phase. A reply of the wrong shape counts as a protocol failure.
pub open spec fn next(session: SessionView, reply: ReplyView) -> StepView {
    let config = session.config;
    let threshold = config.window_start(session.now);
    match (session.phase, reply) {
        (_, ReplyView::Failed(error)) => unavailable(error),
        (Phase::Insert, ReplyView::Done) => StepView::Issue(
            SessionView { phase: Phase::SetTtl, ..session },
            OpView::SetTtl { seconds: config.key_ttl() },
        ),
        (Phase::SetTtl, ReplyView::Done) => StepView::Issue(
            SessionView { phase: Phase::Purge, ..session },
            OpView::PurgeOlderThan { threshold },
        ),
        (Phase::Purge, ReplyView::Done) => StepView::Issue(
            SessionView { phase: Phase::Count, ..session },
            OpView::CountSince { threshold },
        ),
        (Phase::Count, ReplyView::Count(count)) => if count <= config.max_requests {
            StepView::Finished(Decision::Allow)
        } else {
            StepView::Issue(SessionView { phase: Phase::Oldest, ..session }, OpView::OldestEntry)
        },
        (Phase::Oldest, ReplyView::Oldest(found)) => StepView::Finished(
            Decision::Deny(denial_wait(config.window_seconds, session.now, score_of(found))),
        ),
        _ => unavailable(StoreError::Protocol),
    }
}

/// Starts a check of `client_key` at time `now`. `entry_id` names the
/// attempt in the window; the caller makes it unique per request, so that
/// attempts arriving in the same second are counted one by one.
pub fn begin(config: RateLimitConfig, client_key: &str, now: u64, entry_id: &str) -> (first: (
    CheckSession,
    StoreOp,
))
    ensures
        (first.0@, first.1@) == start(config, client_key@, now, entry_id@),
{
    let session = CheckSession {
        config,
        now,
        window_key: window_key_for(client_key),
        phase: Phase::Insert,
    };
    let op = StoreOp::Insert { entry_id: entry_id.to_owned(), timestamp: now };
    (session, op)
}

impl CheckSession {
    /// The key of the window that the session's operations act on.
    pub fn window_key(&self) -> (key: &str)
        ensures
            key@ == self@.window_key,
    {
        self.window_key.as_str()
    }

    /// The operation whose reply the session is waiting for.
    pub fn phase(&self) -> (phase: Phase)
        ensures
            phase == self@.phase,
    {
        self.phase
    }

    /// The session in its next phase.
    fn advanced(self, phase: Phase) -> (session: CheckSession)
        ensures
            session@ == (SessionView { phase, ..self@ }),
    {
        CheckSession { config: self.config, now: self.now, window_key: self.window_key, phase }
    }

    /// Takes the reply to the operation in flight and says what comes next.
    pub fn on_reply(self, reply: StoreReply) -> (step: Step)
        ensures
            step@ == next(self@, reply@),
            reply@ matches ReplyView::Failed(error) ==> step@ == unavailable(error),
            step@ matches StepView::Issue(session, _) ==> session.phase.operations_left()
                < self@.phase.operations_left(),
    {
        let threshold: u64 = self.config.window_start_at(self.now);
        match reply {
            StoreReply::Failed(error) => Step::Finished(
                Decision::Error(ErrorKind::StoreUnavailable(error)),
            ),
            StoreReply::Done => match self.phase {
                Phase::Insert => {
                    let seconds: u64 = self.config.key_ttl_seconds();
                    Step::Issue(self.advanced(Phase::SetTtl), StoreOp::SetTtl { seconds })
                },
                Phase::SetTtl => Step::Issue(
                    self.advanced(Phase::Purge),
                    StoreOp::PurgeOlderThan { threshold },
                ),
                Phase::Purge => Step::Issue(
                    self.advanced(Phase::Count),
                    StoreOp::CountSince { threshold },
                ),
                _ => Step::Finished(Decision::Error(ErrorKind::StoreUnavailable(StoreError::Protocol))),
            },
            StoreReply::Count(count) => match self.phase {
                Phase::Count => if count <= self.config.max_requests as u64 {
                    Step::Finished(Decision::Allow)
                } else {
                    Step::Issue(self.advanced(Phase::Oldest), StoreOp::OldestEntry)
                },
                _ => Step::Finished(Decision::Error(ErrorKind::StoreUnavailable(StoreError::Protocol))),
            },
            StoreReply::Oldest(found) => match self.phase {
                Phase::Oldest => {
                    let oldest: Option<u64> = match found {
                        Some(entry) => Some(entry.timestamp),
                        None => None,
                    };
                    Step::Finished(Decision::Deny(wait_seconds(&self.config, self.now, oldest)))
                },
                _ => Step::Finished(Decision::Error(ErrorKind::StoreUnavailable(StoreError::Protocol))),
            },
        }
    }
}

/// A check moves forward only: the session that a step issues has fewer
/// operations left than the session before it.
pub proof fn lemma_next_moves_forward(session: SessionView, reply: ReplyView)
    ensures
        next(session, reply) matches StepView::Issue(then, _) ==> then.phase.operations_left()
            < session.phase.operations_left(),
{
}

/// A store failure is never swallowed: in every phase a failed operation
/// ends the check, and the answer carries the failure.
pub proof fn law_store_failure_surfaces(session: SessionView, error: StoreError)
    ensures
        next(session, ReplyView::Failed(error)) == StepView::Finished(
            Decision::Error(ErrorKind::StoreUnavailable(error)),
        ),
{
}

/// A check ends in `Allow` or `Deny` only on the replies of a store that
/// worked: no reply to the count makes a failure of it, and the count alone
/// separates the two verdicts.
pub proof fn law_count_decides(session: SessionView, count: u64)
    requires
        session.phase == Phase::Count,
    ensures
        next(session, ReplyView::Count(count)) == StepView::Finished(Decision::Allow) <==> count
            <= session.config.max_requests,
        count > session.config.max_requests ==> next(session, ReplyView::Count(count))
            == StepView::Issue(SessionView { phase: Phase::Oldest, ..session }, OpView::OldestEntry),
{
}

} // verus!
