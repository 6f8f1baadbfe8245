//! What holds of the limiter: the quota is exact for one caller at a time,
//! the wait hint stays inside the window, a window that rolled over lets
//! requests through again, the lower bound of the window is inclusive,
//! clients do not affect each other, and a failing store is reported.
//!
//! All of it is stated of [`run`], the conversation of one check with the
//! store, which is what [`check`](super::limiter::check) returns. Checks
//! that overlap in time interleave their operations at the store and are
//! outside these statements: two of them can both be allowed though
//! together they exceed the quota by one.

use vstd::prelude::*;
use super::RateLimitConfig;
use super::decision::{Decision, ErrorKind};
use super::limiter::{
    lemma_purged_is_counted, lemma_reply_count, lemma_run, lemma_window_after, operations_needed,
    run, survives, wait_within_window, window_after,
};
use super::protocol::{lemma_window_key_injective, window_key};
use super::store::StoreState;
use super::window::{
    count_since, distinct_members, has_member, inserted, lemma_filter_all,
    lemma_filter_keeps_distinct, lemma_inserted_distinct, oldest, other_than, scored_since,
    EntryView,
};

verus! {

/// The answers of a series of checks of one client, one after the other,
/// and the store after the last.
pub open spec fn run_all(
    config: RateLimitConfig,
    store: StoreState,
    client_key: Seq<char>,
    times: Seq<u64>,
    entry_ids: Seq<Seq<char>>,
) -> (Seq<Decision>, StoreState)
    decreases times.len(),
{
    if times.len() == 0 {
        (Seq::empty(), store)
    } else {
        let (answers, before) = run_all(
            config,
            store,
            client_key,
            times.drop_last(),
            entry_ids.drop_last(),
        );
        let (answer, after) = run(config, before, client_key, times.last(), entry_ids.last());
        (answers.push(answer), after)
    }
}

/// The attempts of a series of checks, as entries.
pub open spec fn attempts(times: Seq<u64>, entry_ids: Seq<Seq<char>>) -> Seq<EntryView> {
    Seq::new(times.len(), |i: int| EntryView { id: entry_ids[i], timestamp: times[i] })
}

/// Whether all of `times` lie in one window: no two are further apart than
/// the window is wide.
pub open spec fn within_one_window(config: RateLimitConfig, times: Seq<u64>) -> bool {
    forall|i: int, j: int|
        0 <= i < times.len() && 0 <= j < times.len() ==> times[j] - times[i]
            <= config.window_seconds
}

/// Whether no two of the ids are equal.
pub open spec fn all_distinct(entry_ids: Seq<Seq<char>>) -> bool {
    forall|i: int, j: int| 0 <= i < j < entry_ids.len() ==> entry_ids[i] != entry_ids[j]
}

/// Checks of a fresh key within one window keep every attempt: after them
/// the window holds exactly the attempts, and each check was answered by
/// the number of attempts up to it.
proof fn lemma_fresh_series(
    config: RateLimitConfig,
    store: StoreState,
    client_key: Seq<char>,
    times: Seq<u64>,
    entry_ids: Seq<Seq<char>>,
)
    requires
        store.well_formed(),
        store.outage is None,
        store.entries(window_key(client_key)).len() == 0,
        times.len() == entry_ids.len(),
        all_distinct(entry_ids),
        within_one_window(config, times),
    ensures
        ({
            let (answers, after) = run_all(config, store, client_key, times, entry_ids);
            &&& after.well_formed()
            &&& after.outage is None
            &&& after.entries(window_key(client_key)) == attempts(times, entry_ids)
            &&& answers.len() == times.len()
            &&& forall|k: int|
                0 <= k < times.len() ==> (#[trigger] answers[k] == Decision::Allow <==> k
                    < config.max_requests)
            &&& forall|k: int|
                0 <= k < times.len() && k >= config.max_requests ==> #[trigger] answers[k] is Deny
        }),
    decreases times.len(),
{
    let key = window_key(client_key);
    if times.len() == 0 {
        assert(store.entries(key) =~= attempts(times, entry_ids));
    } else {
        let earlier = times.drop_last();
        let earlier_ids = entry_ids.drop_last();
        let now = times.last();
        let id = entry_ids.last();
        assert(all_distinct(earlier_ids)) by {
            assert forall|i: int, j: int| 0 <= i < j < earlier_ids.len() implies earlier_ids[i]
                != earlier_ids[j] by {
                assert(earlier_ids[i] == entry_ids[i] && earlier_ids[j] == entry_ids[j]);
            }
        }
        assert(within_one_window(config, earlier)) by {
            assert forall|i: int, j: int|
                0 <= i < earlier.len() && 0 <= j < earlier.len() implies earlier[j] - earlier[i]
                <= config.window_seconds by {
                assert(earlier[i] == times[i] && earlier[j] == times[j]);
            }
        }
        lemma_fresh_series(config, store, client_key, earlier, earlier_ids);
        let (answers, before) = run_all(config, store, client_key, earlier, earlier_ids);
        let held = before.entries(key);
        let attempt = EntryView { id, timestamp: now };
        let threshold = config.window_start(now);
        assert(held == attempts(earlier, earlier_ids));
        if before.windows.dom().contains(key) {
            assert(distinct_members(held));
        }
        assert(!has_member(held, id)) by {
            if has_member(held, id) {
                let i = choose|i: int| 0 <= i < held.len() && held[i].id == id;
                assert(earlier_ids[i] == entry_ids[i]);
                assert(entry_ids[i] != entry_ids[entry_ids.len() - 1]);
            }
        }
        lemma_inserted_distinct(held, id, now);
        let recorded = inserted(held, id, now);
        assert(recorded =~= attempts(times, entry_ids));
        assert forall|i: int| 0 <= i < recorded.len() implies scored_since(threshold)(
            #[trigger] recorded[i],
        ) by {
            assert(times[times.len() - 1] - times[i] <= config.window_seconds);
        }
        lemma_filter_all(recorded, scored_since(threshold));
        assert(window_after(config, held, now, id) == attempts(times, entry_ids));
        lemma_run(config, before, client_key, now, id);
        lemma_reply_count(times.len(), config.max_requests);
        let (answer, after) = run(config, before, client_key, now, id);
        let all = answers.push(answer);
        assert(answer == Decision::Allow <==> times.len() - 1 < config.max_requests);
        assert(answer !is Allow ==> answer is Deny);
        assert forall|k: int| 0 <= k < times.len() implies (#[trigger] all[k] == Decision::Allow
            <==> k < config.max_requests) by {
            if k < times.len() - 1 {
                assert(all[k] == answers[k]);
            }
        }
        assert forall|k: int|
            0 <= k < times.len() && k >= config.max_requests implies #[trigger] all[k] is Deny by {
            if k < times.len() - 1 {
                assert(all[k] == answers[k]);
            }
        }
    }
}

/// The quota is exact. Of any number of checks of a fresh key that fall
/// within one window, each recorded under an id of its own, and with a
/// store that works, exactly the first `max_requests` are allowed; every
/// later one, the next in particular, is denied.
pub proof fn law_quota_is_exact(
    config: RateLimitConfig,
    store: StoreState,
    client_key: Seq<char>,
    times: Seq<u64>,
    entry_ids: Seq<Seq<char>>,
)
    requires
        store.well_formed(),
        store.outage is None,
        store.entries(window_key(client_key)).len() == 0,
        times.len() == entry_ids.len(),
        all_distinct(entry_ids),
        within_one_window(config, times),
    ensures
        run_all(config, store, client_key, times, entry_ids).0.len() == times.len(),
        forall|k: int|
            0 <= k < times.len() ==> (#[trigger] run_all(
                config,
                store,
                client_key,
                times,
                entry_ids,
            ).0[k] == Decision::Allow <==> k < config.max_requests),
        forall|k: int|
            0 <= k < times.len() && k >= config.max_requests ==> #[trigger] run_all(
                config,
                store,
                client_key,
                times,
                entry_ids,
            ).0[k] is Deny,
{
    lemma_fresh_series(config, store, client_key, times, entry_ids);
}

/// The wait hint of a denial is at least one second and at most the width
/// of the window, whatever the store held before the check.
pub proof fn law_wait_hint_within_window(
    config: RateLimitConfig,
    store: StoreState,
    client_key: Seq<char>,
    now: u64,
    entry_id: Seq<char>,
)
    requires
        config.well_formed(),
        store.well_formed(),
    ensures
        wait_within_window(config, run(config, store, client_key, now, entry_id).0),
{
    let entries = store.entries(window_key(client_key));
    if store.windows.dom().contains(window_key(client_key)) {
        assert(distinct_members(entries));
    }
    lemma_run(config, store, client_key, now, entry_id);
    lemma_window_after(config, entries, now, entry_id);
}

/// A request is allowed exactly when the window, after the attempt is
/// recorded and what left the window is evicted, holds no more than
/// `max_requests` attempts.
pub proof fn law_allowed_while_room(
    config: RateLimitConfig,
    store: StoreState,
    client_key: Seq<char>,
    now: u64,
    entry_id: Seq<char>,
)
    requires
        store.well_formed(),
        survives(store, 5),
    ensures
        run(config, store, client_key, now, entry_id).0 == Decision::Allow <==> window_after(
            config,
            store.entries(window_key(client_key)),
            now,
            entry_id,
        ).len() <= config.max_requests,
        run(config, store, client_key, now, entry_id).0 !is Error,
{
    lemma_run(config, store, client_key, now, entry_id);
    lemma_reply_count(
        window_after(config, store.entries(window_key(client_key)), now, entry_id).len(),
        config.max_requests,
    );
}

/// Once a window has rolled over, the client is let through again: if at
/// least `window_seconds` have passed since the oldest recorded attempt,
/// and the attempts that are still inside the window leave room for one
/// more, the check is allowed.
pub proof fn law_rollover_allows(
    config: RateLimitConfig,
    store: StoreState,
    client_key: Seq<char>,
    now: u64,
    entry_id: Seq<char>,
)
    requires
        store.well_formed(),
        survives(store, 4),
        !has_member(store.entries(window_key(client_key)), entry_id),
        oldest(store.entries(window_key(client_key))) matches Some(first) && first.timestamp
            + config.window_seconds <= now,
        count_since(store.entries(window_key(client_key)), config.window_start(now))
            < config.max_requests,
    ensures
        run(config, store, client_key, now, entry_id).0 == Decision::Allow,
{
    let entries = store.entries(window_key(client_key));
    let threshold = config.window_start(now);
    lemma_inserted_distinct(entries, entry_id, now);
    entries.lemma_filter_push(EntryView { id: entry_id, timestamp: now }, scored_since(threshold));
    lemma_reply_count(window_after(config, entries, now, entry_id).len(), config.max_requests);
    lemma_run(config, store, client_key, now, entry_id);
}

/// When every recorded attempt has left the window, a check with a quota
/// of at least one is allowed, and the window afterwards holds the new
/// attempt alone.
pub proof fn law_full_rollover_starts_afresh(
    config: RateLimitConfig,
    store: StoreState,
    client_key: Seq<char>,
    now: u64,
    entry_id: Seq<char>,
)
    requires
        store.well_formed(),
        survives(store, 4),
        config.max_requests >= 1,
        forall|i: int|
            0 <= i < store.entries(window_key(client_key)).len() ==> (
            #[trigger] store.entries(window_key(client_key))[i]).timestamp < config.window_start(
                now,
            ),
    ensures
        run(config, store, client_key, now, entry_id).0 == Decision::Allow,
        run(config, store, client_key, now, entry_id).1.entries(window_key(client_key)) == seq![
            EntryView { id: entry_id, timestamp: now },
        ],
{
    let key = window_key(client_key);
    let entries = store.entries(key);
    let threshold = config.window_start(now);
    let attempt = EntryView { id: entry_id, timestamp: now };
    let others = entries.filter(other_than(entry_id));
    assert(others.filter(scored_since(threshold)).len() == 0) by {
        let kept = others.filter(scored_since(threshold));
        if kept.len() > 0 {
            others.lemma_filter_pred(scored_since(threshold), 0);
            others.lemma_filter_contains_rev(scored_since(threshold), kept[0]);
            entries.lemma_filter_contains_rev(other_than(entry_id), kept[0]);
            let i = choose|i: int| 0 <= i < entries.len() && entries[i] == kept[0];
            assert(entries[i].timestamp < threshold);
        }
    }
    others.lemma_filter_push(attempt, scored_since(threshold));
    assert(window_after(config, entries, now, entry_id) =~= seq![attempt]);
    lemma_reply_count(1, config.max_requests);
    lemma_run(config, store, client_key, now, entry_id);
}

/// The lower bound of the window is inclusive. Of the attempts recorded
/// before a check, the check keeps those scored `now - window_seconds` or
/// later, the one exactly at the bound included, and evicts those strictly
/// older. What it keeps is what it counts.
pub proof fn law_window_bound_is_inclusive(
    config: RateLimitConfig,
    store: StoreState,
    client_key: Seq<char>,
    now: u64,
    entry_id: Seq<char>,
    entry: EntryView,
)
    requires
        store.well_formed(),
        survives(
            store,
            operations_needed(config, store.entries(window_key(client_key)), now, entry_id),
        ),
        store.entries(window_key(client_key)).contains(entry),
        entry.id != entry_id,
    ensures
        run(config, store, client_key, now, entry_id).1.entries(window_key(client_key)).contains(
            entry,
        ) <==> entry.timestamp >= now - config.window_seconds,
        count_since(
            run(config, store, client_key, now, entry_id).1.entries(window_key(client_key)),
            config.window_start(now),
        ) == run(config, store, client_key, now, entry_id).1.entries(window_key(client_key)).len(),
{
    let key = window_key(client_key);
    let entries = store.entries(key);
    let threshold = config.window_start(now);
    let recorded = inserted(entries, entry_id, now);
    assert(distinct_members(entries));
    lemma_run(config, store, client_key, now, entry_id);
    lemma_inserted_distinct(entries, entry_id, now);
    lemma_filter_keeps_distinct(entries, other_than(entry_id));
    lemma_filter_keeps_distinct(recorded, scored_since(threshold));
    lemma_purged_is_counted(recorded, threshold);
    let others = entries.filter(other_than(entry_id));
    assert(others.contains(entry));
    let i = choose|i: int| 0 <= i < others.len() && others[i] == entry;
    assert(recorded[i] == entry);
    assert(recorded.contains(entry));
}

/// Clients do not affect each other. A check of one client leaves the
/// window and the lifetime of every other client as they were, and the
/// answer that another client gets afterwards is the answer that it would
/// have got before.
pub proof fn law_clients_are_independent(
    config: RateLimitConfig,
    store: StoreState,
    client_key: Seq<char>,
    now: u64,
    entry_id: Seq<char>,
    other_config: RateLimitConfig,
    other_key: Seq<char>,
    other_now: u64,
    other_id: Seq<char>,
)
    requires
        store.well_formed(),
        store.outage is None,
        client_key != other_key,
    ensures
        run(config, store, client_key, now, entry_id).1.entries(window_key(other_key))
            == store.entries(window_key(other_key)),
        run(config, store, client_key, now, entry_id).1.ttl(window_key(other_key)) == store.ttl(
            window_key(other_key),
        ),
        run(
            other_config,
            run(config, store, client_key, now, entry_id).1,
            other_key,
            other_now,
            other_id,
        ).0 == run(other_config, store, other_key, other_now, other_id).0,
{
    lemma_window_key_injective(client_key, other_key);
    lemma_run(config, store, client_key, now, entry_id);
    let after = run(config, store, client_key, now, entry_id).1;
    lemma_run(other_config, after, other_key, other_now, other_id);
    lemma_run(other_config, store, other_key, other_now, other_id);
}

/// A key without a window is an empty window. What a check answers, and
/// what it leaves in the client's window, depends on the entries recorded
/// for the client alone: two stores that hold the same entries for the
/// client, one of them perhaps none at all, are answered alike.
pub proof fn law_missing_key_is_empty_window(
    config: RateLimitConfig,
    one: StoreState,
    other: StoreState,
    client_key: Seq<char>,
    now: u64,
    entry_id: Seq<char>,
)
    requires
        one.well_formed(),
        other.well_formed(),
        one.outage is None,
        other.outage is None,
        one.entries(window_key(client_key)) == other.entries(window_key(client_key)),
    ensures
        run(config, one, client_key, now, entry_id).0 == run(
            config,
            other,
            client_key,
            now,
            entry_id,
        ).0,
        run(config, one, client_key, now, entry_id).1.entries(window_key(client_key)) == run(
            config,
            other,
            client_key,
            now,
            entry_id,
        ).1.entries(window_key(client_key)),
{
    lemma_run(config, one, client_key, now, entry_id);
    lemma_run(config, other, client_key, now, entry_id);
}

/// Every check that reaches a verdict re-arms the lifetime of the
/// client's key to twice the window, so that a key left alone goes away
/// within that time whether or not it is ever purged.
pub proof fn law_key_lifetime_is_rearmed(
    config: RateLimitConfig,
    store: StoreState,
    client_key: Seq<char>,
    now: u64,
    entry_id: Seq<char>,
)
    requires
        store.well_formed(),
    ensures
        run(config, store, client_key, now, entry_id).0 !is Error ==> run(
            config,
            store,
            client_key,
            now,
            entry_id,
        ).1.ttl(window_key(client_key)) == Some((2 * config.window_seconds) as u64),
{
    lemma_run(config, store, client_key, now, entry_id);
}

/// A failing store is reported, whichever operation it fails. If the store
/// fails before the check has performed the operations it needs, be it the
/// first or any later one, the answer is the store's error, never a
/// verdict.
pub proof fn law_store_outage_is_reported(
    config: RateLimitConfig,
    store: StoreState,
    client_key: Seq<char>,
    now: u64,
    entry_id: Seq<char>,
)
    requires
        store.well_formed(),
        store.outage matches Some(outage) && outage.after < operations_needed(
            config,
            store.entries(window_key(client_key)),
            now,
            entry_id,
        ),
    ensures
        run(config, store, client_key, now, entry_id).0 == Decision::Error(
            ErrorKind::StoreUnavailable(store.outage->0.error),
        ),
{
    lemma_run(config, store, client_key, now, entry_id);
}

} // verus!
