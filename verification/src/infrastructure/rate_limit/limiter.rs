//! A check carried out against a store in memory.
//!
//! [`run`] is the conversation of the protocol held with the store that
//! [`apply`](super::store::apply) describes: every reply is the store's
//! answer to the operation the protocol issued. [`check`] does exactly that
//! on a [`MemoryStore`].

use vstd::prelude::*;
use vstd::string::StringExecFns;
use crate::domain::hash_id::{is_simple_uuid_v4, HashId};
use crate::domain::time::utc_now;
use crate::text::{decimal, decimal_string};
use super::{RateLimitConfig, RateLimitError, RateLimiter};
use super::decision::{reports, verdict, Decision, ErrorKind, StoreError};
use super::protocol::{
    begin, next, score_of, start, window_key, OpView, ReplyView, SessionView, Step, StepView,
};
use super::store::{apply, reply_count, MemoryStore, Outage, StoreState};
use super::window::{
    count_since, distinct_members, inserted, lemma_filter_all, lemma_filter_keeps_distinct,
    lemma_inserted_distinct, lemma_oldest_is_minimal, oldest, oldest_timestamp, purged,
    scored_since, EntryView, WindowView,
};

verus! {

/// The answer of a check that has `op` in flight, and the store when the
/// check is over.
///
/// The protocol moves forward only
/// ([`lemma_next_moves_forward`](super::protocol::lemma_next_moves_forward)),
/// which is why the conversation ends; the branch that says otherwise is
/// never taken.
pub open spec fn run_from(session: SessionView, op: OpView, store: StoreState) -> (
    Decision,
    StoreState,
)
    decreases session.phase.operations_left(),
{
    let (reply, after) = apply(store, session.window_key, op);
    match next(session, reply) {
        StepView::Finished(decision) => (decision, after),
        StepView::Issue(then, then_op) => if then.phase.operations_left()
            < session.phase.operations_left() {
            run_from(then, then_op, after)
        } else {
            (Decision::Error(ErrorKind::StoreUnavailable(StoreError::Protocol)), after)
        },
    }
}

/// The answer of a whole check of `client_key` at time `now`, recorded as
/// `entry_id`, and the store when the check is over.
pub open spec fn run(
    config: RateLimitConfig,
    store: StoreState,
    client_key: Seq<char>,
    now: u64,
    entry_id: Seq<char>,
) -> (Decision, StoreState) {
    let (session, op) = start(config, client_key, now, entry_id);
    run_from(session, op, store)
}

/// Whether the answer, if it is a denial, carries a wait hint of at least
/// one second and at most the width of the window.
pub open spec fn wait_within_window(config: RateLimitConfig, decision: Decision) -> bool {
    decision matches Decision::Deny(wait) ==> 1 <= wait <= config.window_seconds
}

/// Checks one request of `client_key` at time `now` against `store`,
/// recording the attempt as `entry_id`.
///
/// The five operations of the check are performed one after the other on
/// `store`; the answer and the store afterwards are those of [`run`]. The
/// wait hint of a denial lies between one second and the width of the
/// window.
pub fn check(
    store: &mut MemoryStore,
    config: RateLimitConfig,
    client_key: &str,
    now: u64,
    entry_id: &str,
) -> (decision: Decision)
    requires
        old(store).well_formed(),
    ensures
        final(store).well_formed(),
        (decision, final(store)@) == run(config, old(store)@, client_key@, now, entry_id@),
        config.well_formed() ==> wait_within_window(config, decision),
{
    let ghost goal = run(config, store@, client_key@, now, entry_id@);
    proof {
        store.lemma_view_well_formed();
        let entries = store@.entries(window_key(client_key@));
        if store@.windows.dom().contains(window_key(client_key@)) {
            assert(distinct_members(entries));
        }
        lemma_run(config, store@, client_key@, now, entry_id@);
        lemma_window_after(config, entries, now, entry_id@);
    }
    let (first, first_op) = begin(config, client_key, now, entry_id);
    let mut session = first;
    let mut op = first_op;
    loop
        invariant
            store.well_formed(),
            run_from(session@, op@, store@) == goal,
            goal == run(config, old(store)@, client_key@, now, entry_id@),
            config.well_formed() ==> wait_within_window(config, goal.0),
        decreases session@.phase.operations_left(),
    {
        let reply = store.execute(session.window_key(), &op);
        match session.on_reply(reply) {
            Step::Finished(decision) => {
                return decision;
            },
            Step::Issue(then, then_op) => {
                session = then;
                op = then_op;
            },
        }
    }
}

/// The member under which a request is recorded: `req:`, the time of the
/// request, a colon and a nonce that the caller draws per request.
pub open spec fn request_member(now: u64, nonce: Seq<char>) -> Seq<char> {
    "req:"@ + decimal(now as nat) + ":"@ + nonce
}

/// Two requests of one instant are recorded under different members
/// whenever their nonces differ.
pub proof fn lemma_request_member_injective(now: u64, a: Seq<char>, b: Seq<char>)
    ensures
        request_member(now, a) == request_member(now, b) <==> a == b,
{
    let prefix = "req:"@ + decimal(now as nat) + ":"@;
    if request_member(now, a) == request_member(now, b) {
        assert(a =~= request_member(now, a).subrange(
            prefix.len() as int,
            request_member(now, a).len() as int,
        ));
        assert(b =~= request_member(now, b).subrange(
            prefix.len() as int,
            request_member(now, b).len() as int,
        ));
    }
}

/// Writes the member under which a request is recorded.
pub fn request_member_for(now: u64, nonce: &str) -> (member: String)
    ensures
        member@ == request_member(now, nonce@),
{
    let time = decimal_string(now);
    String::from_str("req:").concat(time.as_str()).concat(":").concat(nonce)
}

/// A rate limiter whose store is kept in memory: for a single process, and
/// for trying a policy out before it meets a shared store.
#[derive(Debug)]
pub struct InMemoryRateLimiter {
    store: MemoryStore,
    config: RateLimitConfig,
}

impl InMemoryRateLimiter {
    #[verifier::type_invariant]
    spec fn store_is_well_formed(self) -> bool {
        self.store.well_formed()
    }

    /// What the store holds.
    pub closed spec fn store_view(self) -> StoreState {
        self.store@
    }

    /// The quota that the limiter enforces.
    pub closed spec fn quota(self) -> RateLimitConfig {
        self.config
    }

    /// A limiter with the given quota and an empty store.
    pub fn new(config: RateLimitConfig) -> (limiter: InMemoryRateLimiter)
        ensures
            limiter.quota() == config,
            limiter.store_view().windows == Map::<Seq<char>, WindowView>::empty(),
            limiter.store_view().outage is None,
    {
        InMemoryRateLimiter { store: MemoryStore::new(), config }
    }

    /// A limiter with the given quota on a store that may hold windows
    /// already.
    pub fn with_store(store: MemoryStore, config: RateLimitConfig) -> (limiter:
        InMemoryRateLimiter)
        requires
            store.well_formed(),
        ensures
            limiter.quota() == config,
            limiter.store_view() == store@,
    {
        InMemoryRateLimiter { store, config }
    }

    /// The quota that the limiter enforces.
    pub fn config(&self) -> (config: RateLimitConfig)
        ensures
            config == self.quota(),
    {
        self.config
    }

    /// The store behind the limiter.
    pub fn store(&self) -> (store: &MemoryStore)
        ensures
            store@ == self.store_view(),
            store.well_formed(),
    {
        proof {
            use_type_invariant(self);
        }
        &self.store
    }

    /// Checks one request of `client_key` at time `now`, recording the
    /// attempt as `entry_id`.
    pub fn check_at(&mut self, client_key: &str, now: u64, entry_id: &str) -> (decision: Decision)
        ensures
            final(self).quota() == old(self).quota(),
            (decision, final(self).store_view()) == run(
                old(self).quota(),
                old(self).store_view(),
                client_key@,
                now,
                entry_id@,
            ),
            old(self).quota().well_formed() ==> wait_within_window(old(self).quota(), decision),
    {
        let mut taken = InMemoryRateLimiter::new(self.config);
        std::mem::swap(self, &mut taken);
        proof {
            use_type_invariant(&taken);
        }
        let InMemoryRateLimiter { store, config } = taken;
        let mut store = store;
        let decision = check(&mut store, config, client_key, now, entry_id);
        *self = InMemoryRateLimiter { store, config };
        decision
    }

    /// Checks one request of `client_key` now: the clock is read for the
    /// time of the attempt and a random nonce is drawn for its member.
    ///
    /// The answer is that of [`Self::check_at`] for whatever the clock
    /// read and the draw gave.
    pub fn check(&mut self, client_key: &str) -> (decision: Decision)
        ensures
            final(self).quota() == old(self).quota(),
            old(self).quota().well_formed() ==> wait_within_window(old(self).quota(), decision),
            exists|now: u64, nonce: Seq<char>|
                #![trigger request_member(now, nonce)]
                is_simple_uuid_v4(nonce) && (decision, final(self).store_view()) == run(
                    old(self).quota(),
                    old(self).store_view(),
                    client_key@,
                    now,
                    request_member(now, nonce),
                ),
    {
        let now: u64 = utc_now().unix_seconds();
        let nonce = HashId::new();
        let member = request_member_for(now, nonce.as_string());
        let decision = self.check_at(client_key, now, member.as_str());
        assert(is_simple_uuid_v4(nonce@) && (decision, self.store_view()) == run(
            old(self).quota(),
            old(self).store_view(),
            client_key@,
            now,
            request_member(now, nonce@),
        ));
        decision
    }
}

impl RateLimiter for InMemoryRateLimiter {
    /// The answers of this limiter: for some reading of the clock and some
    /// nonce, the result reports what [`run`] decides on the store, the
    /// store becomes what [`run`] leaves, and the quota stays.
    open spec fn answers(
        self,
        key: Seq<char>,
        result: Result<(), RateLimitError>,
        after: Self,
    ) -> bool {
        exists|now: u64, nonce: Seq<char>|
            #![trigger request_member(now, nonce)]
            {
                let (decision, store) = run(
                    self.quota(),
                    self.store_view(),
                    key,
                    now,
                    request_member(now, nonce),
                );
                &&& is_simple_uuid_v4(nonce)
                &&& reports(result, decision)
                &&& after.store_view() == store
                &&& after.quota() == self.quota()
            }
    }

    /// Checks one request of `key` now and reports a denial or a store
    /// failure as the error: the result is the report of what
    /// [`InMemoryRateLimiter::check`] decides.
    fn check_rate_limit(&mut self, key: &str) -> (result: Result<(), RateLimitError>)
        ensures
            final(self).quota() == old(self).quota(),
            old(self).quota().well_formed() ==> (result matches Err(
                RateLimitError::LimitExceeded(wait),
            ) ==> 1 <= wait <= old(self).quota().window_seconds),
    {
        let decision = self.check(key);
        let result = decision.into_result();
        proof {
            let (now, nonce) = choose|now: u64, nonce: Seq<char>|
                #![trigger request_member(now, nonce)]
                is_simple_uuid_v4(nonce) && (decision, self.store_view()) == run(
                    old(self).quota(),
                    old(self).store_view(),
                    key@,
                    now,
                    request_member(now, nonce),
                );
            assert(is_simple_uuid_v4(nonce) && (decision, self.store_view()) == run(
                old(self).quota(),
                old(self).store_view(),
                key@,
                now,
                request_member(now, nonce),
            ));
        }
        result
    }
}

/// The window of a client after a check at `now` that recorded `entry_id`:
/// the attempt is recorded, then what left the window is evicted.
pub open spec fn window_after(
    config: RateLimitConfig,
    entries: Seq<EntryView>,
    now: u64,
    entry_id: Seq<char>,
) -> Seq<EntryView> {
    purged(inserted(entries, entry_id, now), config.window_start(now))
}

/// The verdict of a check on a window that held `entries`, when the store
/// works: the attempts in the window after the check are counted, the
/// current one included, and a denial takes its hint from the oldest.
pub open spec fn outcome(
    config: RateLimitConfig,
    entries: Seq<EntryView>,
    now: u64,
    entry_id: Seq<char>,
) -> Decision {
    let window = window_after(config, entries, now, entry_id);
    verdict(config, now, reply_count(window.len()), oldest_timestamp(window))
}

/// Number of store operations that the check performs when none fails:
/// four for an allowed request, a fifth to find the oldest entry for a
/// denied one.
pub open spec fn operations_needed(
    config: RateLimitConfig,
    entries: Seq<EntryView>,
    now: u64,
    entry_id: Seq<char>,
) -> nat {
    if window_after(config, entries, now, entry_id).len() <= config.max_requests {
        4
    } else {
        5
    }
}

/// Whether the next `operations` operations on the store succeed.
pub open spec fn survives(store: StoreState, operations: nat) -> bool {
    match store.outage {
        Some(outage) => outage.after >= operations,
        None => true,
    }
}

/// The outage that lies ahead after `operations` operations succeeded.
pub open spec fn outage_after(store: StoreState, operations: nat) -> Option<Outage> {
    match store.outage {
        Some(outage) => Some(Outage { after: (outage.after - operations) as u64, error: outage.error }),
        None => None,
    }
}

/// Evicting twice with one threshold is evicting once, so the count that
/// follows an eviction is the size of the window.
pub proof fn lemma_purged_is_counted(w: Seq<EntryView>, threshold: u64)
    ensures
        purged(purged(w, threshold), threshold) == purged(w, threshold),
        count_since(purged(w, threshold), threshold) == purged(w, threshold).len(),
{
    let kept = purged(w, threshold);
    assert forall|i: int| 0 <= i < kept.len() implies scored_since(threshold)(#[trigger] kept[i]) by {
        w.lemma_filter_pred(scored_since(threshold), i);
    }
    lemma_filter_all(kept, scored_since(threshold));
}

/// The attempt that a check records is in the window after the check, and
/// nothing in that window is older than the oldest entry it reports.
pub proof fn lemma_window_after(
    config: RateLimitConfig,
    entries: Seq<EntryView>,
    now: u64,
    entry_id: Seq<char>,
)
    requires
        distinct_members(entries),
    ensures
        distinct_members(window_after(config, entries, now, entry_id)),
        window_after(config, entries, now, entry_id).contains(EntryView { id: entry_id, timestamp: now }),
        window_after(config, entries, now, entry_id).len() >= 1,
        oldest_timestamp(window_after(config, entries, now, entry_id)) matches Some(t)
            && config.window_start(now) <= t <= now,
{
    let recorded = inserted(entries, entry_id, now);
    let threshold = config.window_start(now);
    let window = purged(recorded, threshold);
    let attempt = EntryView { id: entry_id, timestamp: now };
    lemma_inserted_distinct(entries, entry_id, now);
    lemma_filter_keeps_distinct(recorded, scored_since(threshold));
    assert(recorded[recorded.len() - 1] == attempt);
    assert(recorded.contains(attempt));
    assert(scored_since(threshold)(attempt));
    assert(window.contains(attempt));
    lemma_oldest_is_minimal(window);
    let first = oldest(window)->0;
    assert(window.contains(first));
    assert(scored_since(threshold)(first));
    let k = choose|k: int| 0 <= k < window.len() && window[k] == attempt;
    assert(first.timestamp <= window[k].timestamp);
}

/// A count fits the quota exactly when the reply that carries it does.
pub proof fn lemma_reply_count(count: nat, max_requests: u32)
    ensures
        reply_count(count) <= max_requests <==> count <= max_requests,
{
}

/// What a check comes to. If the store fails one of the operations that
/// the check needs, the answer is that failure. Otherwise the answer is
/// [`outcome`] of the client's window, the window becomes
/// [`window_after`] with the lifetime of the key re-armed, and no other
/// window changes.
pub proof fn lemma_run(
    config: RateLimitConfig,
    store: StoreState,
    client_key: Seq<char>,
    now: u64,
    entry_id: Seq<char>,
)
    requires
        store.well_formed(),
    ensures
        ({
            let key = window_key(client_key);
            let entries = store.entries(key);
            let needed = operations_needed(config, entries, now, entry_id);
            let (decision, after) = run(config, store, client_key, now, entry_id);
            if survives(store, needed) {
                &&& decision == outcome(config, entries, now, entry_id)
                &&& after.windows == store.windows.insert(
                    key,
                    WindowView {
                        entries: window_after(config, entries, now, entry_id),
                        ttl: Some(config.key_ttl()),
                    },
                )
                &&& after.outage == outage_after(store, needed)
                &&& after.well_formed()
            } else {
                decision == Decision::Error(ErrorKind::StoreUnavailable(store.outage->0.error))
            }
        }),
{
    let key = window_key(client_key);
    let entries = store.entries(key);
    let threshold = config.window_start(now);
    let recorded = inserted(entries, entry_id, now);
    let window = window_after(config, entries, now, entry_id);
    let needed = operations_needed(config, entries, now, entry_id);
    let (session, op) = start(config, client_key, now, entry_id);
    reveal_with_fuel(run_from, 6);
    if store.windows.dom().contains(key) {
        assert(distinct_members(entries));
    }
    lemma_inserted_distinct(entries, entry_id, now);
    lemma_window_after(config, entries, now, entry_id);
    lemma_purged_is_counted(recorded, threshold);
    lemma_reply_count(window.len(), config.max_requests);
    let (r1, s1) = apply(store, key, op);
    if store.failing() is None {
        assert(s1.entries(key) == recorded);
        let (r2, s2) = apply(s1, key, OpView::SetTtl { seconds: config.key_ttl() });
        if s1.failing() is None {
            assert(s2.entries(key) == recorded);
            let (r3, s3) = apply(s2, key, OpView::PurgeOlderThan { threshold });
            if s2.failing() is None {
                assert(s3.entries(key) == window);
                assert(s3.ttl(key) == Some(config.key_ttl()));
                let (r4, s4) = apply(s3, key, OpView::CountSince { threshold });
                if s3.failing() is None {
                    assert(r4 == ReplyView::Count(reply_count(window.len())));
                    assert(s4.windows =~= store.windows.insert(
                        key,
                        WindowView { entries: window, ttl: Some(config.key_ttl()) },
                    ));
                    assert(s4.well_formed());
                    if window.len() > config.max_requests {
                        let (r5, s5) = apply(s4, key, OpView::OldestEntry);
                        if s4.failing() is None {
                            assert(r5 == ReplyView::Oldest(oldest(window)));
                            assert(score_of(oldest(window)) == oldest_timestamp(window));
                        }
                    }
                }
            }
        }
    }
}

} // verus!
