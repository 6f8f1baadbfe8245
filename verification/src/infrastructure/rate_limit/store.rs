//! The store as the limiter relies on it, and a store kept in memory.
//!
//! [`apply`] says what each of the five operations does to a store and
//! what it answers. [`MemoryStore`] is a store in memory that meets it. It
//! can be told to fail from some operation on, which is how a lost
//! connection is rehearsed.

use vstd::prelude::*;
use crate::text::same_text;
use super::decision::StoreError;
use super::protocol::{OpView, ReplyView, StoreOp, StoreReply};
use super::window::{
    count_since, distinct_members, inserted, oldest, purged, scored_since, EntryView, Window,
    WindowEntry, WindowView,
};

verus! {

/// A planned outage: the next `after` operations succeed, every later one
/// fails with `error` and has no effect.
#[derive(Debug, Clone, Copy, PartialEq, Eq, Structural)]
pub struct Outage {
    pub after: u64,
    pub error: StoreError,
}

/// A store as mathematics sees it: the windows by key, none of them empty,
/// and the outage that lies ahead, if any.
#[verifier::ext_equal]
pub struct StoreState {
    pub windows: Map<Seq<char>, WindowView>,
    pub outage: Option<Outage>,
}

impl StoreState {
    /// The entries recorded for `key`. A key without a window has none.
    pub open spec fn entries(self, key: Seq<char>) -> Seq<EntryView> {
        if self.windows.dom().contains(key) {
            self.windows[key].entries
        } else {
            Seq::empty()
        }
    }

    /// Lifetime last set on `key`, if the key has a window and a lifetime.
    pub open spec fn ttl(self, key: Seq<char>) -> Option<u64> {
        if self.windows.dom().contains(key) {
            self.windows[key].ttl
        } else {
            None
        }
    }

    /// The error with which the next operation fails, if it fails.
    pub open spec fn failing(self) -> Option<StoreError> {
        match self.outage {
            Some(outage) => if outage.after == 0 {
                Some(outage.error)
            } else {
                None
            },
            None => None,
        }
    }

    /// The store after one operation was let through.
    pub open spec fn charged(self) -> StoreState {
        StoreState {
            windows: self.windows,
            outage: match self.outage {
                Some(outage) => Some(Outage { after: (outage.after - 1) as u64, error: outage.error }),
                None => None,
            },
        }
    }

    /// The store with the entries of `key` replaced. A window left without
    /// entries is dropped together with its lifetime.
    pub open spec fn with_entries(self, key: Seq<char>, entries: Seq<EntryView>) -> StoreState {
        StoreState {
            windows: if entries.len() == 0 {
                self.windows.remove(key)
            } else {
                self.windows.insert(key, WindowView { entries, ttl: self.ttl(key) })
            },
            outage: self.outage,
        }
    }

    /// The store with the lifetime of `key` set, if `key` has a window.
    pub open spec fn with_ttl(self, key: Seq<char>, seconds: u64) -> StoreState {
        StoreState {
            windows: if self.windows.dom().contains(key) {
                self.windows.insert(
                    key,
                    WindowView { entries: self.windows[key].entries, ttl: Some(seconds) },
                )
            } else {
                self.windows
            },
            outage: self.outage,
        }
    }

    /// Every window has an entry, and no window holds a member twice.
    pub open spec fn well_formed(self) -> bool {
        forall|key: Seq<char>| #[trigger]
            self.windows.dom().contains(key) ==> self.windows[key].entries.len() > 0
                && distinct_members(self.windows[key].entries)
    }
}

/// A count as a reply carries it.
pub open spec fn reply_count(count: nat) -> u64 {
    if count > u64::MAX {
        u64::MAX
    } else {
        count as u64
    }
}

/// What the store answers to `op` on the window of `key`, and the store
/// afterwards. An operation either takes its full effect or fails and
/// leaves the store as it was.
pub open spec fn apply(store: StoreState, key: Seq<char>, op: OpView) -> (ReplyView, StoreState) {
    match store.failing() {
        Some(error) => (ReplyView::Failed(error), store),
        None => {
            let open = store.charged();
            match op {
                OpView::Insert { entry_id, timestamp } => (
                    ReplyView::Done,
                    open.with_entries(key, inserted(open.entries(key), entry_id, timestamp)),
                ),
                OpView::SetTtl { seconds } => (ReplyView::Done, open.with_ttl(key, seconds)),
                OpView::PurgeOlderThan { threshold } => (
                    ReplyView::Done,
                    open.with_entries(key, purged(open.entries(key), threshold)),
                ),
                OpView::CountSince { threshold } => (
                    ReplyView::Count(reply_count(count_since(open.entries(key), threshold))),
                    open,
                ),
                OpView::OldestEntry => (ReplyView::Oldest(oldest(open.entries(key))), open),
            }
        },
    }
}

/// A window under its key.
#[derive(Debug, Clone, PartialEq, Eq)]
struct Record {
    key: String,
    window: Window,
}

/// Whether some record is kept under `key`.
spec fn holds(records: Seq<Record>, key: Seq<char>) -> bool {
    exists|i: int| 0 <= i < records.len() && records[i].key@ == key
}

/// Position of the record kept under `key`.
spec fn position_of(records: Seq<Record>, key: Seq<char>) -> int {
    choose|i: int| 0 <= i < records.len() && records[i].key@ == key
}

/// No two records share a key; every window is well formed and not empty.
spec fn records_well_formed(records: Seq<Record>) -> bool {
    &&& forall|i: int, j: int| 0 <= i < j < records.len() ==> records[i].key@ != records[j].key@
    &&& forall|i: int|
        0 <= i < records.len() ==> (#[trigger] records[i]).window.well_formed()
            && records[i].window@.entries.len() > 0
}

/// The windows of the records, by key.
spec fn windows_of(records: Seq<Record>) -> Map<Seq<char>, WindowView> {
    Map::new(
        |key: Seq<char>| holds(records, key),
        |key: Seq<char>| records[position_of(records, key)].window@,
    )
}

/// The record under a key is found at the one position that has the key.
proof fn lemma_position(records: Seq<Record>, i: int)
    requires
        records_well_formed(records),
        0 <= i < records.len(),
    ensures
        holds(records, records[i].key@),
        position_of(records, records[i].key@) == i,
        windows_of(records)[records[i].key@] == records[i].window@,
{
    let key = records[i].key@;
    let p = position_of(records, key);
    assert(0 <= p < records.len() && records[p].key@ == key);
    if p < i {
        assert(records[p].key@ != records[i].key@);
    } else if i < p {
        assert(records[i].key@ != records[p].key@);
    }
}

/// Taking a record out removes its key from the windows and nothing else.
proof fn lemma_windows_after_remove(records: Seq<Record>, i: int)
    requires
        records_well_formed(records),
        0 <= i < records.len(),
    ensures
        records_well_formed(records.remove(i)),
        windows_of(records.remove(i)) == windows_of(records).remove(records[i].key@),
        !holds(records.remove(i), records[i].key@),
{
    let rest = records.remove(i);
    let gone = records[i].key@;
    assert forall|a: int| 0 <= a < rest.len() implies rest[a] == records[if a < i {
        a
    } else {
        a + 1
    }] by {}
    assert(records_well_formed(rest)) by {
        assert forall|a: int, b: int| 0 <= a < b < rest.len() implies rest[a].key@ != rest[b].key@ by {
            let a0 = if a < i {
                a
            } else {
                a + 1
            };
            let b0 = if b < i {
                b
            } else {
                b + 1
            };
            assert(records[a0].key@ != records[b0].key@);
        }
        assert forall|a: int| 0 <= a < rest.len() implies (#[trigger] rest[a]).window.well_formed()
            && rest[a].window@.entries.len() > 0 by {
            let a0 = if a < i {
                a
            } else {
                a + 1
            };
            assert(records[a0].window.well_formed());
        }
    }
    if holds(rest, gone) {
        let a = position_of(rest, gone);
        let a0 = if a < i {
            a
        } else {
            a + 1
        };
        assert(records[a0].key@ == gone);
        if a0 < i {
            assert(records[a0].key@ != records[i].key@);
        } else {
            assert(records[i].key@ != records[a0].key@);
        }
    }
    assert forall|key: Seq<char>| #[trigger]
        windows_of(rest).dom().contains(key) <==> windows_of(records).remove(gone).dom().contains(
            key,
        ) by {
        if holds(rest, key) {
            let a = position_of(rest, key);
            let a0 = if a < i {
                a
            } else {
                a + 1
            };
            assert(records[a0].key@ == key);
        }
        if holds(records, key) && key != gone {
            let a0 = position_of(records, key);
            let a = if a0 < i {
                a0
            } else {
                a0 - 1
            };
            assert(rest[a].key@ == key);
        }
    }
    assert forall|key: Seq<char>| #[trigger] windows_of(rest).dom().contains(key) implies windows_of(
        rest,
    )[key] == windows_of(records).remove(gone)[key] by {
        let a = position_of(rest, key);
        let a0 = if a < i {
            a
        } else {
            a + 1
        };
        assert(records[a0].key@ == key);
        lemma_position(records, a0);
        lemma_position(rest, a);
    }
    assert(windows_of(rest) =~= windows_of(records).remove(gone));
}

/// Adding a record under a new key adds its window and nothing else.
proof fn lemma_windows_after_push(records: Seq<Record>, record: Record)
    requires
        records_well_formed(records),
        !holds(records, record.key@),
        record.window.well_formed(),
        record.window@.entries.len() > 0,
    ensures
        records_well_formed(records.push(record)),
        windows_of(records.push(record)) == windows_of(records).insert(record.key@, record.window@),
{
    let more = records.push(record);
    let last = records.len() as int;
    assert(records_well_formed(more)) by {
        assert forall|a: int, b: int| 0 <= a < b < more.len() implies more[a].key@ != more[b].key@ by {
            if b == last {
                assert(records[a].key@ != record.key@);
            } else {
                assert(records[a].key@ != records[b].key@);
            }
        }
        assert forall|a: int| 0 <= a < more.len() implies (#[trigger] more[a]).window.well_formed()
            && more[a].window@.entries.len() > 0 by {
            if a < last {
                assert(records[a].window.well_formed());
            }
        }
    }
    assert forall|key: Seq<char>| #[trigger]
        windows_of(more).dom().contains(key) <==> windows_of(records).insert(
            record.key@,
            record.window@,
        ).dom().contains(key) by {
        if holds(more, key) {
            let a = position_of(more, key);
            if a < last {
                assert(records[a].key@ == key);
            }
        }
        if holds(records, key) {
            let a = position_of(records, key);
            assert(more[a].key@ == key);
        }
        if key == record.key@ {
            assert(more[last].key@ == key);
        }
    }
    assert forall|key: Seq<char>| #[trigger] windows_of(more).dom().contains(key) implies windows_of(
        more,
    )[key] == windows_of(records).insert(record.key@, record.window@)[key] by {
        let a = position_of(more, key);
        lemma_position(more, a);
        if a < last {
            assert(records[a].key@ == key);
            lemma_position(records, a);
        }
    }
    assert(windows_of(more) =~= windows_of(records).insert(record.key@, record.window@));
}

/// A sorted-set store kept in memory.
#[derive(Debug, Clone, PartialEq, Eq)]
pub struct MemoryStore {
    records: Vec<Record>,
    outage: Option<Outage>,
}

impl View for MemoryStore {
    type V = StoreState;

    closed spec fn view(&self) -> StoreState {
        StoreState { windows: windows_of(self.records@), outage: self.outage }
    }
}

impl MemoryStore {
    /// The invariant of the store: keys are kept once, and what it shows
    /// is well formed.
    pub closed spec fn well_formed(&self) -> bool {
        records_well_formed(self.records@)
    }

    /// What a well-formed store shows is well formed.
    pub proof fn lemma_view_well_formed(&self)
        requires
            self.well_formed(),
        ensures
            self@.well_formed(),
    {
        assert forall|key: Seq<char>| #[trigger] self@.windows.dom().contains(key) implies self@.windows[key].entries.len()
            > 0 && distinct_members(self@.windows[key].entries) by {
            let i = position_of(self.records@, key);
            lemma_position(self.records@, i);
            assert(self.records@[i].window.well_formed());
        }
    }

    /// A store without windows that never fails.
    pub fn new() -> (store: MemoryStore)
        ensures
            store.well_formed(),
            store@.windows == Map::<Seq<char>, WindowView>::empty(),
            store@.outage is None,
    {
        let store = MemoryStore { records: Vec::new(), outage: None };
        assert(store@.windows =~= Map::<Seq<char>, WindowView>::empty());
        store
    }

    /// Plans an outage: the next `after` operations succeed, every later
    /// one fails with `error`.
    pub fn fail_after(&mut self, after: u64, error: StoreError)
        requires
            old(self).well_formed(),
        ensures
            final(self).well_formed(),
            final(self)@.windows == old(self)@.windows,
            final(self)@.outage == Some(Outage { after, error }),
    {
        self.outage = Some(Outage { after, error });
    }

    /// Calls the planned outage off.
    pub fn recover(&mut self)
        requires
            old(self).well_formed(),
        ensures
            final(self).well_formed(),
            final(self)@.windows == old(self)@.windows,
            final(self)@.outage is None,
    {
        self.outage = None;
    }

    /// Where the record of `key` stands.
    fn position(&self, key: &str) -> (found: Option<usize>)
        ensures
            match found {
                Some(i) => i < self.records@.len() && self.records@[i as int].key@ == key@,
                None => !holds(self.records@, key@),
            },
    {
        let mut i: usize = 0;
        while i < self.records.len()
            invariant
                i <= self.records.len(),
                forall|j: int| 0 <= j < i ==> self.records@[j].key@ != key@,
            decreases self.records.len() - i,
        {
            if same_text(self.records[i].key.as_str(), key) {
                return Some(i);
            }
            i += 1;
        }
        None
    }

    /// Lets one operation through, or fails it.
    fn let_through(&mut self) -> (passed: Result<(), StoreError>)
        ensures
            final(self).records == old(self).records,
            match old(self)@.failing() {
                Some(error) => passed == Err::<(), StoreError>(error) && final(self).outage == old(
                    self,
                ).outage,
                None => passed is Ok && final(self).outage == old(self)@.charged().outage,
            },
    {
        match self.outage {
            Some(outage) => {
                if outage.after == 0 {
                    Err(outage.error)
                } else {
                    self.outage = Some(Outage { after: outage.after - 1, error: outage.error });
                    Ok(())
                }
            },
            None => Ok(()),
        }
    }

    /// The entries recorded for `key`, oldest record first as kept.
    pub fn entries(&self, key: &str) -> (entries: Vec<WindowEntry>)
        requires
            self.well_formed(),
        ensures
            super::window::entry_views(entries@) == self@.entries(key@),
    {
        match self.position(key) {
            Some(i) => {
                proof {
                    lemma_position(self.records@, i as int);
                }
                self.records[i].window.to_vec()
            },
            None => {
                let none: Vec<WindowEntry> = Vec::new();
                assert(super::window::entry_views(none@) =~= Seq::<EntryView>::empty());
                none
            },
        }
    }

    /// Lifetime last set on `key`, if the key has a window and a lifetime.
    pub fn ttl(&self, key: &str) -> (ttl: Option<u64>)
        requires
            self.well_formed(),
        ensures
            ttl == self@.ttl(key@),
    {
        match self.position(key) {
            Some(i) => {
                proof {
                    lemma_position(self.records@, i as int);
                }
                self.records[i].window.ttl()
            },
            None => None,
        }
    }

    /// Takes the window of `key` out of the store; a key without a window
    /// yields an empty one.
    fn take_window(&mut self, key: &str) -> (window: Window)
        requires
            old(self).well_formed(),
        ensures
            final(self).well_formed(),
            final(self).outage == old(self).outage,
            !holds(final(self).records@, key@),
            final(self)@.windows == old(self)@.windows.remove(key@),
            window.well_formed(),
            window@.entries == old(self)@.entries(key@),
            window@.ttl == old(self)@.ttl(key@),
            old(self)@.windows.dom().contains(key@) ==> window@.entries.len() > 0,
    {
        match self.position(key) {
            Some(i) => {
                proof {
                    lemma_position(self.records@, i as int);
                    lemma_windows_after_remove(self.records@, i as int);
                }
                let record = self.records.remove(i);
                record.window
            },
            None => {
                assert(old(self)@.windows.remove(key@) =~= old(self)@.windows);
                Window::new()
            },
        }
    }

    /// Puts a window under `key`, which has none; an empty window is
    /// dropped.
    fn put_window(&mut self, key: &str, window: Window)
        requires
            old(self).well_formed(),
            !holds(old(self).records@, key@),
            window.well_formed(),
        ensures
            final(self).well_formed(),
            final(self).outage == old(self).outage,
            final(self)@.windows == if window@.entries.len() == 0 {
                old(self)@.windows
            } else {
                old(self)@.windows.insert(key@, window@)
            },
    {
        if window.len() > 0 {
            let record = Record { key: key.to_owned(), window };
            proof {
                lemma_windows_after_push(self.records@, record);
            }
            self.records.push(record);
        }
    }

    /// Records `entry_id` under `key` with score `timestamp`, idempotent by
    /// member.
    pub fn insert(&mut self, key: &str, entry_id: &str, timestamp: u64) -> (done: Result<
        (),
        StoreError,
    >)
        requires
            old(self).well_formed(),
        ensures
            final(self).well_formed(),
            (as_reply(done), final(self)@) == apply(
                old(self)@,
                key@,
                OpView::Insert { entry_id: entry_id@, timestamp },
            ),
    {
        match self.let_through() {
            Err(error) => Err(error),
            Ok(()) => {
                let ghost open = self@;
                let mut window = self.take_window(key);
                window.insert(entry_id, timestamp);
                self.put_window(key, window);
                assert(final(self)@ =~= open.with_entries(
                    key@,
                    inserted(open.entries(key@), entry_id@, timestamp),
                ));
                Ok(())
            },
        }
    }

    /// Sets the lifetime of `key` to `seconds`. A key without a window has
    /// nothing to expire and stays without one.
    pub fn set_ttl(&mut self, key: &str, seconds: u64) -> (done: Result<(), StoreError>)
        requires
            old(self).well_formed(),
        ensures
            final(self).well_formed(),
            (as_reply(done), final(self)@) == apply(old(self)@, key@, OpView::SetTtl { seconds }),
    {
        match self.let_through() {
            Err(error) => Err(error),
            Ok(()) => {
                let ghost open = self@;
                let mut window = self.take_window(key);
                window.set_ttl(seconds);
                self.put_window(key, window);
                assert(final(self)@ =~= open.with_ttl(key@, seconds));
                Ok(())
            },
        }
    }

    /// Removes from the window of `key` every entry scored strictly less
    /// than `threshold`.
    pub fn purge_older_than(&mut self, key: &str, threshold: u64) -> (done: Result<(), StoreError>)
        requires
            old(self).well_formed(),
        ensures
            final(self).well_formed(),
            (as_reply(done), final(self)@) == apply(
                old(self)@,
                key@,
                OpView::PurgeOlderThan { threshold },
            ),
    {
        match self.let_through() {
            Err(error) => Err(error),
            Ok(()) => {
                let ghost open = self@;
                let mut window = self.take_window(key);
                window.purge_older_than(threshold);
                self.put_window(key, window);
                assert(final(self)@ =~= open.with_entries(
                    key@,
                    purged(open.entries(key@), threshold),
                ));
                Ok(())
            },
        }
    }

    /// Counts the entries of `key` scored `threshold` or more.
    pub fn count_since(&mut self, key: &str, threshold: u64) -> (count: Result<u64, StoreError>)
        requires
            old(self).well_formed(),
        ensures
            final(self).well_formed(),
            final(self)@ == apply(old(self)@, key@, OpView::CountSince { threshold }).1,
            match count {
                Ok(n) => apply(old(self)@, key@, OpView::CountSince { threshold }).0
                    == ReplyView::Count(n),
                Err(error) => apply(old(self)@, key@, OpView::CountSince { threshold }).0
                    == ReplyView::Failed(error),
            },
    {
        match self.let_through() {
            Err(error) => Err(error),
            Ok(()) => {
                match self.position(key) {
                    Some(i) => {
                        proof {
                            lemma_position(self.records@, i as int);
                        }
                        let n: usize = self.records[i].window.count_since(threshold);
                        Ok(n as u64)
                    },
                    None => {
                        assert(Seq::<EntryView>::empty().filter(scored_since(threshold)).len() == 0)
                            by {
                            reveal(Seq::filter);
                        }
                        Ok(0)
                    },
                }
            },
        }
    }

    /// Fetches the entry of `key` with the lowest score.
    pub fn oldest_entry(&mut self, key: &str) -> (found: Result<Option<WindowEntry>, StoreError>)
        requires
            old(self).well_formed(),
        ensures
            final(self).well_formed(),
            final(self)@ == apply(old(self)@, key@, OpView::OldestEntry).1,
            match found {
                Ok(Some(entry)) => apply(old(self)@, key@, OpView::OldestEntry).0
                    == ReplyView::Oldest(Some(entry@)),
                Ok(None) => apply(old(self)@, key@, OpView::OldestEntry).0 == ReplyView::Oldest(
                    None,
                ),
                Err(error) => apply(old(self)@, key@, OpView::OldestEntry).0 == ReplyView::Failed(
                    error,
                ),
            },
    {
        match self.let_through() {
            Err(error) => Err(error),
            Ok(()) => {
                match self.position(key) {
                    Some(i) => {
                        proof {
                            lemma_position(self.records@, i as int);
                        }
                        Ok(self.records[i].window.oldest_entry())
                    },
                    None => Ok(None),
                }
            },
        }
    }

    /// Performs `op` on the window of `key` and answers as the store does.
    pub fn execute(&mut self, key: &str, op: &StoreOp) -> (reply: StoreReply)
        requires
            old(self).well_formed(),
        ensures
            final(self).well_formed(),
            (reply@, final(self)@) == apply(old(self)@, key@, op@),
    {
        match op {
            StoreOp::Insert { entry_id, timestamp } => {
                match self.insert(key, entry_id.as_str(), *timestamp) {
                    Ok(()) => StoreReply::Done,
                    Err(error) => StoreReply::Failed(error),
                }
            },
            StoreOp::SetTtl { seconds } => {
                match self.set_ttl(key, *seconds) {
                    Ok(()) => StoreReply::Done,
                    Err(error) => StoreReply::Failed(error),
                }
            },
            StoreOp::PurgeOlderThan { threshold } => {
                match self.purge_older_than(key, *threshold) {
                    Ok(()) => StoreReply::Done,
                    Err(error) => StoreReply::Failed(error),
                }
            },
            StoreOp::CountSince { threshold } => {
                match self.count_since(key, *threshold) {
                    Ok(count) => StoreReply::Count(count),
                    Err(error) => StoreReply::Failed(error),
                }
            },
            StoreOp::OldestEntry => {
                match self.oldest_entry(key) {
                    Ok(found) => StoreReply::Oldest(found),
                    Err(error) => StoreReply::Failed(error),
                }
            },
        }
    }
}

/// The reply that stands for the result of an operation that returns
/// nothing.
pub open spec fn as_reply(done: Result<(), StoreError>) -> ReplyView {
    match done {
        Ok(()) => ReplyView::Done,
        Err(error) => ReplyView::Failed(error),
    }
}

} // verus!
