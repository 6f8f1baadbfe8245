use jump::infrastructure::rate_limit::decision::{decide, wait_seconds};
use jump::infrastructure::rate_limit::limiter::request_member_for;
use jump::infrastructure::rate_limit::protocol::window_key_for;
use jump::infrastructure::rate_limit::{
    begin, check, Decision, ErrorKind, InMemoryRateLimiter, MemoryStore, Phase, RateLimitConfig,
    RateLimitError, RateLimiter, Step, StoreError, StoreOp, StoreReply, WindowEntry,
};

fn config(max_requests: u32, window_seconds: u32) -> RateLimitConfig {
    RateLimitConfig { max_requests, window_seconds }
}

fn entry(id: &str, timestamp: u64) -> WindowEntry {
    WindowEntry { id: id.to_string(), timestamp }
}

fn unavailable(error: StoreError) -> Decision {
    Decision::Error(ErrorKind::StoreUnavailable(error))
}

struct MockRateLimiter {
    counter: usize,
    max_requests: usize,
}

impl RateLimiter for MockRateLimiter {
    fn check_rate_limit(&mut self, _key: &str) -> Result<(), RateLimitError> {
        self.counter += 1;
        if self.counter > self.max_requests {
            Err(RateLimitError::LimitExceeded(60))
        } else {
            Ok(())
        }
    }
}

#[test]
fn test_rate_limiter_trait() {
    let mut limiter = MockRateLimiter { counter: 0, max_requests: 2 };

    let result1 = limiter.check_rate_limit("test-ip");
    assert!(result1.is_ok(), "First request should succeed");

    let result2 = limiter.check_rate_limit("test-ip");
    assert!(result2.is_ok(), "Second request should succeed");

    let result3 = limiter.check_rate_limit("test-ip");
    assert!(result3.is_err(), "Third request should fail");

    match result3 {
        Err(RateLimitError::LimitExceeded(_)) => (),
        other => panic!("Expected LimitExceeded, got {:?}", other),
    }
}

#[test]
fn test_rate_limit_allows_max_requests() {
    let key = "test_client_1";
    let mut limiter = InMemoryRateLimiter::new(RateLimitConfig::default());

    for i in 0..2 {
        let result = limiter.check_rate_limit(key);
        assert!(result.is_ok(), "Request {} should be allowed", i + 1);
    }
}

#[test]
fn test_rate_limit_blocks_excess_requests() {
    let key = format!("test_block_{}", chrono::Utc::now().timestamp_millis());
    let config = config(2, 60);
    let max_requests = config.max_requests;
    let now = chrono::Utc::now().timestamp() as u64;

    let mut store = MemoryStore::new();
    for i in 0..max_requests {
        store.insert(&window_key_for(&key), &format!("request{}", i), now).unwrap();
    }
    let mut limiter = InMemoryRateLimiter::with_store(store, config);

    let result = limiter.check_rate_limit(&key);
    assert!(result.is_err(), "Request after limit should fail");
    match result {
        Err(RateLimitError::LimitExceeded(_)) => (),
        other => panic!("Expected LimitExceeded, got {:?}", other),
    }
}

#[test]
fn test_rate_limit_resets_after_window() {
    let key = format!("test_reset_{}", chrono::Utc::now().timestamp_millis());
    let config = config(2, 1);
    let now = chrono::Utc::now().timestamp() as u64;

    let mut store = MemoryStore::new();
    store.insert(&window_key_for(&key), "request1", now).unwrap();
    store.insert(&window_key_for(&key), "request2", now).unwrap();

    let result = check(&mut store, config, &key, now, "request3");
    assert!(result.into_result().is_err(), "Request after limit should fail");

    // Two seconds later the window of one second has rolled over.
    let result = check(&mut store, config, &key, now + 2, "request4");
    assert!(result.into_result().is_ok(), "Request after window reset should be allowed");
}

#[test]
fn default_config_is_100_per_minute() {
    assert_eq!(RateLimitConfig::default(), config(100, 60));
}

#[test]
fn window_start_and_key_lifetime() {
    assert_eq!(config(2, 60).window_start_at(1000), 940);
    assert_eq!(config(2, 60).window_start_at(60), 0);
    assert_eq!(config(2, 60).window_start_at(59), 0);
    assert_eq!(config(2, 60).key_ttl_seconds(), 120);
    assert_eq!(config(2, u32::MAX).key_ttl_seconds(), 2 * (u32::MAX as u64));
}

#[test]
fn window_key_has_the_prefix() {
    assert_eq!(window_key_for("10.0.0.1"), "rate_limit:10.0.0.1");
    assert_eq!(window_key_for(""), "rate_limit:");
}

#[test]
fn request_member_names_time_and_nonce() {
    assert_eq!(request_member_for(1700000000, "abc"), "req:1700000000:abc");
    assert_eq!(request_member_for(0, ""), "req:0:");
}

#[test]
fn scenario_two_allowed_third_denied_other_key_allowed_rollover() {
    let config = config(2, 60);
    let mut store = MemoryStore::new();
    assert_eq!(check(&mut store, config, "A", 1000, "r1"), Decision::Allow);
    assert_eq!(check(&mut store, config, "A", 1000, "r2"), Decision::Allow);
    match check(&mut store, config, "A", 1000, "r3") {
        Decision::Deny(wait) => assert!((1..=60).contains(&wait)),
        other => panic!("expected a denial, got {:?}", other),
    }
    assert_eq!(check(&mut store, config, "B", 1000, "r4"), Decision::Allow);
    assert_eq!(check(&mut store, config, "A", 1061, "r5"), Decision::Allow);
    assert_eq!(store.entries("rate_limit:A"), vec![entry("r5", 1061)]);
    assert_eq!(store.entries("rate_limit:B"), vec![entry("r4", 1000)]);
}

#[test]
fn scenario_store_timeout_on_any_operation_is_an_error() {
    // Denied checks need all five operations: fail each of them in turn.
    for failing in 0..5u64 {
        let mut store = MemoryStore::new();
        for id in ["a", "b", "c"] {
            store.insert("rate_limit:A", id, 1000).unwrap();
        }
        store.fail_after(failing, StoreError::Timeout);
        let decision = check(&mut store, config(2, 60), "A", 1000, "now");
        assert_eq!(decision, unavailable(StoreError::Timeout), "operation {}", failing);
    }
    // With five operations let through the verdict is reached.
    let mut store = MemoryStore::new();
    for id in ["a", "b", "c"] {
        store.insert("rate_limit:A", id, 1000).unwrap();
    }
    store.fail_after(5, StoreError::Timeout);
    assert_eq!(check(&mut store, config(2, 60), "A", 1000, "now"), Decision::Deny(60));
}

#[test]
fn allowed_check_needs_four_operations() {
    for failing in 0..4u64 {
        let mut store = MemoryStore::new();
        store.fail_after(failing, StoreError::Connection);
        assert_eq!(
            check(&mut store, config(2, 60), "A", 1000, "r"),
            unavailable(StoreError::Connection)
        );
    }
    let mut store = MemoryStore::new();
    store.fail_after(4, StoreError::Connection);
    assert_eq!(check(&mut store, config(2, 60), "A", 1000, "r"), Decision::Allow);
    // The outage is still ahead: the next operation fails.
    assert_eq!(store.count_since("rate_limit:A", 0), Err(StoreError::Connection));
    store.recover();
    assert_eq!(store.count_since("rate_limit:A", 0), Ok(1));
}

#[test]
fn failed_operation_leaves_the_store_as_it_was() {
    let mut store = MemoryStore::new();
    store.insert("k", "a", 5).unwrap();
    store.fail_after(0, StoreError::Protocol);
    assert_eq!(store.insert("k", "b", 6), Err(StoreError::Protocol));
    assert_eq!(store.set_ttl("k", 9), Err(StoreError::Protocol));
    assert_eq!(store.purge_older_than("k", 100), Err(StoreError::Protocol));
    assert_eq!(store.count_since("k", 0), Err(StoreError::Protocol));
    assert_eq!(store.oldest_entry("k"), Err(StoreError::Protocol));
    assert_eq!(store.entries("k"), vec![entry("a", 5)]);
    assert_eq!(store.ttl("k"), None);
}

#[test]
fn exactly_the_first_n_are_allowed() {
    for n in [0u32, 1, 2, 5] {
        let mut store = MemoryStore::new();
        for k in 0..(n + 3) {
            let decision =
                check(&mut store, config(n, 60), "client", 1000 + k as u64, &format!("r{}", k));
            if k < n {
                assert_eq!(decision, Decision::Allow, "n={} k={}", n, k);
            } else {
                assert!(matches!(decision, Decision::Deny(_)), "n={} k={}", n, k);
            }
        }
    }
}

#[test]
fn zero_quota_denies_with_the_whole_window() {
    let mut store = MemoryStore::new();
    assert_eq!(check(&mut store, config(0, 60), "A", 1000, "r1"), Decision::Deny(60));
}

#[test]
fn wait_is_what_is_left_of_the_window() {
    let config = config(2, 60);
    let mut store = MemoryStore::new();
    assert_eq!(check(&mut store, config, "A", 100, "r1"), Decision::Allow);
    assert_eq!(check(&mut store, config, "A", 110, "r2"), Decision::Allow);
    assert_eq!(check(&mut store, config, "A", 130, "r3"), Decision::Deny(30));
    assert_eq!(check(&mut store, config, "A", 159, "r4"), Decision::Deny(1));
    // At 160 the attempt of 100 is exactly at the bound: it still counts,
    // and the wait is floored at one second.
    assert_eq!(check(&mut store, config, "A", 160, "r5"), Decision::Deny(1));
}

#[test]
fn wait_seconds_formula() {
    let c = config(2, 60);
    assert_eq!(wait_seconds(&c, 130, Some(100)), 30);
    assert_eq!(wait_seconds(&c, 160, Some(100)), 1);
    assert_eq!(wait_seconds(&c, 1000, Some(100)), 1);
    assert_eq!(wait_seconds(&c, 100, Some(100)), 60);
    assert_eq!(wait_seconds(&c, 100, None), 60);
    // An oldest attempt scored in the future adds to the wait.
    assert_eq!(wait_seconds(&c, 100, Some(105)), 65);
    assert_eq!(wait_seconds(&c, 0, Some(u64::MAX)), u32::MAX);
    assert_eq!(wait_seconds(&config(2, u32::MAX), 0, Some(1)), u32::MAX);
}

#[test]
fn decide_by_count() {
    let c = config(2, 60);
    assert_eq!(decide(&c, 100, 0, None), Decision::Allow);
    assert_eq!(decide(&c, 100, 2, Some(90)), Decision::Allow);
    assert_eq!(decide(&c, 100, 3, Some(90)), Decision::Deny(50));
    assert_eq!(decide(&c, 100, 3, None), Decision::Deny(60));
}

#[test]
fn bound_of_the_window_is_inclusive() {
    let config = config(10, 60);
    let mut store = MemoryStore::new();
    store.insert("rate_limit:A", "older", 39).unwrap();
    store.insert("rate_limit:A", "bound", 40).unwrap();
    store.insert("rate_limit:A", "newer", 41).unwrap();
    assert_eq!(check(&mut store, config, "A", 100, "now"), Decision::Allow);
    assert_eq!(
        store.entries("rate_limit:A"),
        vec![entry("bound", 40), entry("newer", 41), entry("now", 100)]
    );
    assert_eq!(store.count_since("rate_limit:A", 40), Ok(3));
    assert_eq!(store.count_since("rate_limit:A", 41), Ok(2));
}

#[test]
fn entry_at_the_bound_counts_against_the_quota() {
    let config = config(1, 60);
    let mut store = MemoryStore::new();
    store.insert("rate_limit:A", "bound", 40).unwrap();
    assert_eq!(check(&mut store, config, "A", 100, "now"), Decision::Deny(1));
    let mut store = MemoryStore::new();
    store.insert("rate_limit:A", "older", 39).unwrap();
    assert_eq!(check(&mut store, config, "A", 100, "now"), Decision::Allow);
}

#[test]
fn rollover_allows_only_when_room_is_left() {
    // 61 seconds after the oldest attempt, but two newer attempts still
    // fill the quota.
    let config = config(2, 60);
    let mut store = MemoryStore::new();
    store.insert("rate_limit:A", "r1", 0).unwrap();
    store.insert("rate_limit:A", "r2", 50).unwrap();
    store.insert("rate_limit:A", "r3", 55).unwrap();
    assert_eq!(check(&mut store, config, "A", 61, "r4"), Decision::Deny(49));
    // With one newer attempt there is room.
    let mut store = MemoryStore::new();
    store.insert("rate_limit:A", "r1", 0).unwrap();
    store.insert("rate_limit:A", "r2", 50).unwrap();
    assert_eq!(check(&mut store, config, "A", 61, "r4"), Decision::Allow);
}

#[test]
fn keys_do_not_affect_each_other() {
    let config = config(1, 60);
    let mut with_a = MemoryStore::new();
    assert_eq!(check(&mut with_a, config, "A", 1000, "a1"), Decision::Allow);
    assert!(matches!(check(&mut with_a, config, "A", 1000, "a2"), Decision::Deny(_)));
    let mut without_a = MemoryStore::new();
    for (store, id) in [(&mut with_a, "b1"), (&mut without_a, "b1")] {
        assert_eq!(check(store, config, "B", 1000, id), Decision::Allow);
    }
    assert_eq!(with_a.entries("rate_limit:B"), without_a.entries("rate_limit:B"));
    assert_eq!(with_a.ttl("rate_limit:B"), Some(120));
    assert_eq!(with_a.entries("rate_limit:A"), vec![entry("a1", 1000), entry("a2", 1000)]);
}

#[test]
fn check_sets_the_lifetime_to_twice_the_window() {
    let mut store = MemoryStore::new();
    check(&mut store, config(2, 45), "A", 1000, "r1");
    assert_eq!(store.ttl("rate_limit:A"), Some(90));
    assert_eq!(store.ttl("rate_limit:B"), None);
}

#[test]
fn same_member_is_recorded_once() {
    let config = config(2, 60);
    let mut store = MemoryStore::new();
    for now in [1000, 1001, 1002] {
        assert_eq!(check(&mut store, config, "A", now, "same"), Decision::Allow);
    }
    assert_eq!(store.entries("rate_limit:A"), vec![entry("same", 1002)]);
}

#[test]
fn store_operations() {
    let mut store = MemoryStore::new();
    assert_eq!(store.count_since("k", 0), Ok(0));
    assert_eq!(store.oldest_entry("k"), Ok(None));
    assert_eq!(store.set_ttl("k", 10), Ok(()));
    assert_eq!(store.ttl("k"), None);
    store.insert("k", "b", 20).unwrap();
    store.insert("k", "a", 10).unwrap();
    store.insert("k", "c", 10).unwrap();
    assert_eq!(store.oldest_entry("k"), Ok(Some(entry("a", 10))));
    assert_eq!(store.count_since("k", 10), Ok(3));
    assert_eq!(store.count_since("k", 11), Ok(1));
    assert_eq!(store.count_since("k", 21), Ok(0));
    store.set_ttl("k", 10).unwrap();
    assert_eq!(store.ttl("k"), Some(10));
    store.insert("k", "a", 30).unwrap();
    assert_eq!(store.entries("k"), vec![entry("b", 20), entry("c", 10), entry("a", 30)]);
    store.purge_older_than("k", 20).unwrap();
    assert_eq!(store.entries("k"), vec![entry("b", 20), entry("a", 30)]);
    assert_eq!(store.ttl("k"), Some(10));
    store.purge_older_than("k", 31).unwrap();
    assert_eq!(store.entries("k"), Vec::<WindowEntry>::new());
    // The emptied window is gone, and its lifetime with it.
    assert_eq!(store.ttl("k"), None);
    assert_eq!(store.entries("other"), Vec::<WindowEntry>::new());
}

#[test]
fn execute_answers_each_operation() {
    let mut store = MemoryStore::new();
    let insert = StoreOp::Insert { entry_id: "a".to_string(), timestamp: 7 };
    assert_eq!(store.execute("k", &insert), StoreReply::Done);
    assert_eq!(store.execute("k", &StoreOp::SetTtl { seconds: 3 }), StoreReply::Done);
    assert_eq!(store.execute("k", &StoreOp::PurgeOlderThan { threshold: 7 }), StoreReply::Done);
    assert_eq!(store.execute("k", &StoreOp::CountSince { threshold: 7 }), StoreReply::Count(1));
    assert_eq!(
        store.execute("k", &StoreOp::OldestEntry),
        StoreReply::Oldest(Some(entry("a", 7)))
    );
    store.fail_after(0, StoreError::Timeout);
    assert_eq!(store.execute("k", &StoreOp::OldestEntry), StoreReply::Failed(StoreError::Timeout));
}

fn issued(step: Step) -> (jump::infrastructure::rate_limit::CheckSession, StoreOp) {
    match step {
        Step::Issue(session, op) => (session, op),
        Step::Finished(decision) => panic!("finished early with {:?}", decision),
    }
}

#[test]
fn protocol_issues_the_five_operations_in_order() {
    let (session, op) = begin(config(2, 60), "A", 1000, "req-1");
    assert_eq!(session.window_key(), "rate_limit:A");
    assert_eq!(session.phase(), Phase::Insert);
    assert_eq!(op, StoreOp::Insert { entry_id: "req-1".to_string(), timestamp: 1000 });
    let (session, op) = issued(session.on_reply(StoreReply::Done));
    assert_eq!(session.phase(), Phase::SetTtl);
    assert_eq!(op, StoreOp::SetTtl { seconds: 120 });
    let (session, op) = issued(session.on_reply(StoreReply::Done));
    assert_eq!(session.phase(), Phase::Purge);
    assert_eq!(op, StoreOp::PurgeOlderThan { threshold: 940 });
    let (session, op) = issued(session.on_reply(StoreReply::Done));
    assert_eq!(session.phase(), Phase::Count);
    assert_eq!(op, StoreOp::CountSince { threshold: 940 });
    let (session, op) = issued(session.clone().on_reply(StoreReply::Count(3)));
    assert_eq!(session.phase(), Phase::Oldest);
    assert_eq!(op, StoreOp::OldestEntry);
    assert_eq!(
        session.clone().on_reply(StoreReply::Oldest(Some(entry("x", 990)))),
        Step::Finished(Decision::Deny(50))
    );
    assert_eq!(
        session.on_reply(StoreReply::Oldest(None)),
        Step::Finished(Decision::Deny(60))
    );
}

#[test]
fn protocol_allows_up_to_the_quota() {
    let at_count = || {
        let (s, _) = begin(config(2, 60), "A", 1000, "r");
        let (s, _) = issued(s.on_reply(StoreReply::Done));
        let (s, _) = issued(s.on_reply(StoreReply::Done));
        issued(s.on_reply(StoreReply::Done)).0
    };
    assert_eq!(at_count().on_reply(StoreReply::Count(0)), Step::Finished(Decision::Allow));
    assert_eq!(at_count().on_reply(StoreReply::Count(2)), Step::Finished(Decision::Allow));
    assert!(matches!(at_count().on_reply(StoreReply::Count(3)), Step::Issue(_, _)));
}

#[test]
fn protocol_reports_a_failure_in_every_phase() {
    let replies = [
        StoreReply::Done,
        StoreReply::Done,
        StoreReply::Done,
        StoreReply::Count(3),
        StoreReply::Oldest(None),
    ];
    for failing in 0..5 {
        let (mut session, _) = begin(config(2, 60), "A", 1000, "r");
        for reply in replies.iter().take(failing) {
            session = issued(session.on_reply(reply.clone())).0;
        }
        assert_eq!(
            session.on_reply(StoreReply::Failed(StoreError::Connection)),
            Step::Finished(unavailable(StoreError::Connection)),
            "phase {}",
            failing
        );
    }
}

#[test]
fn protocol_takes_a_misplaced_reply_for_a_protocol_failure() {
    let (session, _) = begin(config(2, 60), "A", 1000, "r");
    assert_eq!(
        session.clone().on_reply(StoreReply::Count(1)),
        Step::Finished(unavailable(StoreError::Protocol))
    );
    assert_eq!(
        session.clone().on_reply(StoreReply::Oldest(None)),
        Step::Finished(unavailable(StoreError::Protocol))
    );
    let (at_ttl, _) = issued(session.on_reply(StoreReply::Done));
    let (at_purge, _) = issued(at_ttl.on_reply(StoreReply::Done));
    let (at_count, _) = issued(at_purge.on_reply(StoreReply::Done));
    assert_eq!(
        at_count.clone().on_reply(StoreReply::Done),
        Step::Finished(unavailable(StoreError::Protocol))
    );
    let (at_oldest, _) = issued(at_count.on_reply(StoreReply::Count(9)));
    assert_eq!(
        at_oldest.on_reply(StoreReply::Done),
        Step::Finished(unavailable(StoreError::Protocol))
    );
}

#[test]
fn decisions_become_results() {
    assert_eq!(Decision::Allow.into_result(), Ok(()));
    assert_eq!(Decision::Deny(7).into_result(), Err(RateLimitError::LimitExceeded(7)));
    assert_eq!(
        unavailable(StoreError::Connection).into_result(),
        Err(RateLimitError::Redis("connection failure".to_string()))
    );
    assert_eq!(
        unavailable(StoreError::Timeout).into_result(),
        Err(RateLimitError::Redis("timeout".to_string()))
    );
    assert_eq!(
        unavailable(StoreError::Protocol).into_result(),
        Err(RateLimitError::Redis("protocol error".to_string()))
    );
}

#[test]
fn rate_limit_error_messages() {
    assert_eq!(
        RateLimitError::LimitExceeded(42).to_string(),
        "Rate limit exceeded. Try again in 42 seconds"
    );
    assert_eq!(RateLimitError::Redis("down".to_string()).to_string(), "Redis error: down");
}

#[test]
fn in_memory_limiter_denies_after_the_quota() {
    let mut limiter = InMemoryRateLimiter::new(config(2, 60));
    assert_eq!(limiter.config(), config(2, 60));
    assert_eq!(limiter.check_at("A", 1000, "r1"), Decision::Allow);
    assert_eq!(limiter.check_at("A", 1000, "r2"), Decision::Allow);
    assert_eq!(limiter.check_at("A", 1010, "r3"), Decision::Deny(50));
    assert_eq!(limiter.store().entries("rate_limit:A").len(), 3);
}

#[test]
fn in_memory_limiter_counts_requests_of_one_second_one_by_one() {
    let mut limiter = InMemoryRateLimiter::new(config(3, 3600));
    let answers: Vec<Decision> = (0..5).map(|_| limiter.check("A")).collect();
    assert_eq!(&answers[..3], &[Decision::Allow, Decision::Allow, Decision::Allow]);
    assert!(matches!(answers[3], Decision::Deny(w) if (1..=3600).contains(&w)));
    assert!(matches!(answers[4], Decision::Deny(w) if (1..=3600).contains(&w)));
    let entries = limiter.store().entries("rate_limit:A");
    assert_eq!(entries.len(), 5);
    assert!(entries.iter().all(|e| e.id.starts_with("req:") && e.id.len() > 40));
}

#[test]
fn in_memory_limiter_reports_an_outage() {
    let mut store = MemoryStore::new();
    store.fail_after(0, StoreError::Timeout);
    let mut limiter = InMemoryRateLimiter::with_store(store, config(2, 60));
    assert_eq!(limiter.check_rate_limit("A"), Err(RateLimitError::Redis("timeout".to_string())));
}
