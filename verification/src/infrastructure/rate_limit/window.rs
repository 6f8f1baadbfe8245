//! One client's window: the sorted set of request attempts kept for a key.
//!
//! A window is modelled as a sequence of entries in which no member occurs
//! twice. The order of the sequence is the order in which the members were
//! last recorded; every rule below depends on scores alone.

use vstd::prelude::*;
use crate::text::same_text;

verus! {

/// A recorded request attempt as mathematics sees it.
pub struct EntryView {
    /// The member: an opaque string, unique within its window.
    pub id: Seq<char>,
    /// The score: arrival time in seconds since the epoch.
    pub timestamp: u64,
}

/// A recorded request attempt.
#[derive(Debug, Clone, PartialEq, Eq)]
pub struct WindowEntry {
    /// The member: an opaque string, unique within its window.
    pub id: String,
    /// The score: arrival time in seconds since the epoch.
    pub timestamp: u64,
}

impl View for WindowEntry {
    type V = EntryView;

    open spec fn view(&self) -> EntryView {
        EntryView { id: self.id@, timestamp: self.timestamp }
    }
}

/// The entries of a vector, each by its view.
pub open spec fn entry_views(entries: Seq<WindowEntry>) -> Seq<EntryView> {
    entries.map_values(|e: WindowEntry| e@)
}

/// Holds of the entries whose score is at least `threshold`.
pub open spec fn scored_since(threshold: u64) -> spec_fn(EntryView) -> bool {
    |e: EntryView| e.timestamp >= threshold
}

/// Holds of the entries whose member differs from `id`.
pub open spec fn other_than(id: Seq<char>) -> spec_fn(EntryView) -> bool {
    |e: EntryView| e.id != id
}

/// No member occurs twice.
pub open spec fn distinct_members(w: Seq<EntryView>) -> bool {
    forall|i: int, j: int| 0 <= i < j < w.len() ==> w[i].id != w[j].id
}

/// Whether some entry of the window has the member `id`.
pub open spec fn has_member(w: Seq<EntryView>, id: Seq<char>) -> bool {
    exists|i: int| 0 <= i < w.len() && w[i].id == id
}

/// The window after recording `id` with score `timestamp`: an earlier entry
/// of the same member is replaced, so recording is idempotent by member.
pub open spec fn inserted(w: Seq<EntryView>, id: Seq<char>, timestamp: u64) -> Seq<EntryView> {
    w.filter(other_than(id)).push(EntryView { id, timestamp })
}

/// The window after removing every entry whose score is strictly less than
/// `threshold`. An entry scored exactly `threshold` stays.
pub open spec fn purged(w: Seq<EntryView>, threshold: u64) -> Seq<EntryView> {
    w.filter(scored_since(threshold))
}

/// Number of entries whose score lies in `[threshold, +inf)`.
pub open spec fn count_since(w: Seq<EntryView>, threshold: u64) -> nat {
    w.filter(scored_since(threshold)).len()
}

/// The entry with the lowest score; among several with that score, the one
/// that stands first. `None` for the empty window.
pub open spec fn oldest(w: Seq<EntryView>) -> Option<EntryView>
    decreases w.len(),
{
    if w.len() == 0 {
        None
    } else {
        match oldest(w.drop_last()) {
            Some(e) => if e.timestamp <= w.last().timestamp {
                Some(e)
            } else {
                Some(w.last())
            },
            None => Some(w.last()),
        }
    }
}

/// Score of the oldest entry, if there is one.
pub open spec fn oldest_timestamp(w: Seq<EntryView>) -> Option<u64> {
    match oldest(w) {
        Some(e) => Some(e.timestamp),
        None => None,
    }
}

/// The oldest entry belongs to the window and no entry has a lower score.
pub proof fn lemma_oldest_is_minimal(w: Seq<EntryView>)
    ensures
        oldest(w) is None <==> w.len() == 0,
        oldest(w) matches Some(e) ==> w.contains(e) && forall|i: int|
            0 <= i < w.len() ==> e.timestamp <= (#[trigger] w[i]).timestamp,
    decreases w.len(),
{
    if w.len() > 0 {
        let front = w.drop_last();
        lemma_oldest_is_minimal(front);
        let e = oldest(w)->0;
        if oldest(front) is Some {
            let f = oldest(front)->0;
            if f.timestamp <= w.last().timestamp {
                let k = choose|k: int| 0 <= k < front.len() && front[k] == f;
                assert(w[k] == f);
            } else {
                assert(w[w.len() - 1] == e);
            }
        } else {
            assert(w[w.len() - 1] == e);
        }
        assert forall|i: int| 0 <= i < w.len() implies e.timestamp <= (#[trigger] w[i]).timestamp by {
            if i < front.len() {
                assert(front[i] == w[i]);
            }
        }
    }
}

/// Every entry that a filter keeps stood in the window, in the same order:
/// the kept entries have distinct members if the window had.
pub proof fn lemma_filter_keeps_distinct(w: Seq<EntryView>, keep: spec_fn(EntryView) -> bool)
    requires
        distinct_members(w),
    ensures
        distinct_members(w.filter(keep)),
        forall|e: EntryView| #[trigger] w.filter(keep).contains(e) <==> w.contains(e) && keep(e),
    decreases w.len(),
{
    reveal(Seq::filter);
    if w.len() > 0 {
        let front = w.drop_last();
        assert forall|i: int, j: int| 0 <= i < j < front.len() implies front[i].id != front[j].id by {
            assert(front[i] == w[i] && front[j] == w[j]);
        }
        lemma_filter_keeps_distinct(front, keep);
        let kept = w.filter(keep);
        let kept_front = front.filter(keep);
        assert forall|e: EntryView| #[trigger] kept.contains(e) <==> w.contains(e) && keep(e) by {
            if kept.contains(e) {
                let k = choose|k: int| 0 <= k < kept.len() && kept[k] == e;
                if keep(w.last()) && k == kept.len() - 1 {
                    assert(w[w.len() - 1] == e);
                } else {
                    assert(kept_front[k] == e);
                    assert(kept_front.contains(e));
                    let m = choose|m: int| 0 <= m < front.len() && front[m] == e;
                    assert(w[m] == e);
                }
            }
            if w.contains(e) && keep(e) {
                let m = choose|m: int| 0 <= m < w.len() && w[m] == e;
                if m == w.len() - 1 {
                    assert(kept[kept.len() - 1] == e);
                } else {
                    assert(front[m] == e);
                    assert(kept_front.contains(e));
                    let k = choose|k: int| 0 <= k < kept_front.len() && kept_front[k] == e;
                    assert(kept[k] == e);
                }
            }
        }
        if keep(w.last()) {
            assert forall|i: int, j: int| 0 <= i < j < kept.len() implies kept[i].id != kept[j].id by {
                if j == kept.len() - 1 {
                    assert(kept_front[i] == kept[i]);
                    assert(kept_front.contains(kept[i]));
                    let m = choose|m: int| 0 <= m < front.len() && front[m] == kept[i];
                    assert(w[m].id != w[w.len() - 1].id);
                } else {
                    assert(kept_front[i] == kept[i] && kept_front[j] == kept[j]);
                }
            }
        }
    }
}

/// A filter that every entry passes changes nothing.
pub proof fn lemma_filter_all(w: Seq<EntryView>, keep: spec_fn(EntryView) -> bool)
    requires
        forall|i: int| 0 <= i < w.len() ==> keep(#[trigger] w[i]),
    ensures
        w.filter(keep) == w,
    decreases w.len(),
{
    reveal(Seq::filter);
    if w.len() > 0 {
        let front = w.drop_last();
        assert forall|i: int| 0 <= i < front.len() implies keep(#[trigger] front[i]) by {
            assert(front[i] == w[i]);
        }
        lemma_filter_all(front, keep);
        assert(keep(w[w.len() - 1]));
        assert(front.push(w.last()) =~= w);
    }
}

/// Recording a member keeps the members distinct, and keeps exactly the
/// other members' entries beside the new one.
pub proof fn lemma_inserted_distinct(w: Seq<EntryView>, id: Seq<char>, timestamp: u64)
    requires
        distinct_members(w),
    ensures
        distinct_members(inserted(w, id, timestamp)),
        inserted(w, id, timestamp).len() >= 1,
        inserted(w, id, timestamp).last() == (EntryView { id, timestamp }),
        !has_member(w, id) ==> inserted(w, id, timestamp) == w.push(EntryView { id, timestamp }),
{
    let rest = w.filter(other_than(id));
    let after = inserted(w, id, timestamp);
    lemma_filter_keeps_distinct(w, other_than(id));
    assert forall|i: int, j: int| 0 <= i < j < after.len() implies after[i].id != after[j].id by {
        if j == after.len() - 1 {
            assert(rest[i] == after[i]);
            assert(rest.contains(after[i]));
        } else {
            assert(rest[i] == after[i] && rest[j] == after[j]);
        }
    }
    if !has_member(w, id) {
        lemma_filter_all(w, other_than(id));
    }
}

/// A window kept in memory: its entries and the lifetime last set on its key.
#[derive(Debug, Clone, PartialEq, Eq)]
pub struct Window {
    entries: Vec<WindowEntry>,
    ttl: Option<u64>,
}

/// A window as mathematics sees it.
#[verifier::ext_equal]
pub struct WindowView {
    /// The entries, no member twice.
    pub entries: Seq<EntryView>,
    /// Lifetime in seconds that was last set on the key, if any.
    pub ttl: Option<u64>,
}

impl View for Window {
    type V = WindowView;

    closed spec fn view(&self) -> WindowView {
        WindowView { entries: entry_views(self.entries@), ttl: self.ttl }
    }
}

impl Window {
    /// The invariant of a window: no member occurs twice.
    pub open spec fn well_formed(&self) -> bool {
        distinct_members(self@.entries)
    }

    /// A window without entries and without a lifetime.
    pub fn new() -> (window: Window)
        ensures
            window.well_formed(),
            window@.entries == Seq::<EntryView>::empty(),
            window@.ttl is None,
    {
        let window = Window { entries: Vec::new(), ttl: None };
        assert(window@.entries =~= Seq::<EntryView>::empty());
        window
    }

    /// Number of entries held.
    pub fn len(&self) -> (n: usize)
        ensures
            n == self@.entries.len(),
    {
        self.entries.len()
    }

    /// Lifetime in seconds that was last set, if any.
    pub fn ttl(&self) -> (ttl: Option<u64>)
        ensures
            ttl == self@.ttl,
    {
        self.ttl
    }

    /// The entries whose view passes `threshold`, or, with `skip` given,
    /// whose member differs from it.
    fn retained(&self, threshold: u64, skip: Option<&str>) -> (kept: Vec<WindowEntry>)
        ensures
            skip is None ==> entry_views(kept@) == self@.entries.filter(scored_since(threshold)),
            skip matches Some(id) ==> entry_views(kept@) == self@.entries.filter(other_than(id@)),
    {
        let ghost keep: spec_fn(EntryView) -> bool = match skip {
            Some(id) => other_than(id@),
            None => scored_since(threshold),
        };
        let mut kept: Vec<WindowEntry> = Vec::new();
        let mut i: usize = 0;
        assert(entry_views(self.entries@.take(0)) =~= Seq::<EntryView>::empty());
        assert(entry_views(kept@) =~= entry_views(self.entries@.take(0)).filter(keep)) by {
            reveal(Seq::filter);
        }
        while i < self.entries.len()
            invariant
                i <= self.entries.len(),
                keep == match skip {
                    Some(id) => other_than(id@),
                    None => scored_since(threshold),
                },
                entry_views(kept@) == entry_views(self.entries@.take(i as int)).filter(keep),
            decreases self.entries.len() - i,
        {
            let entry = &self.entries[i];
            let passes = match skip {
                Some(id) => !same_text(entry.id.as_str(), id),
                None => entry.timestamp >= threshold,
            };
            proof {
                let before = entry_views(self.entries@.take(i as int));
                assert(entry_views(self.entries@.take(i + 1)) =~= before.push(entry@));
                before.lemma_filter_push(entry@, keep);
                assert(passes == keep(entry@));
            }
            if passes {
                let ghost shorter = kept@;
                let copy = WindowEntry { id: entry.id.clone(), timestamp: entry.timestamp };
                kept.push(copy);
                assert(entry_views(kept@) =~= entry_views(shorter).push(entry@));
            }
            i += 1;
        }
        assert(self.entries@.take(i as int) =~= self.entries@);
        kept
    }

    /// A copy of the entries, in the order in which they are kept.
    pub fn to_vec(&self) -> (entries: Vec<WindowEntry>)
        ensures
            entry_views(entries@) == self@.entries,
    {
        proof {
            lemma_filter_all(self@.entries, scored_since(0));
        }
        self.retained(0, None)
    }

    /// Records `id` with score `timestamp`, replacing an earlier entry of
    /// the same member.
    pub fn insert(&mut self, id: &str, timestamp: u64)
        requires
            old(self).well_formed(),
        ensures
            final(self).well_formed(),
            final(self)@.entries == inserted(old(self)@.entries, id@, timestamp),
            final(self)@.ttl == old(self)@.ttl,
    {
        let mut kept = self.retained(0, Some(id));
        let ghost rest = entry_views(kept@);
        let entry = WindowEntry { id: id.to_owned(), timestamp };
        kept.push(entry);
        assert(entry_views(kept@) =~= rest.push(entry@));
        proof {
            lemma_inserted_distinct(old(self)@.entries, id@, timestamp);
        }
        self.entries = kept;
    }

    /// Sets the lifetime of the key to `seconds`.
    pub fn set_ttl(&mut self, seconds: u64)
        requires
            old(self).well_formed(),
        ensures
            final(self).well_formed(),
            final(self)@.entries == old(self)@.entries,
            final(self)@.ttl == Some(seconds),
    {
        self.ttl = Some(seconds);
    }

    /// Removes every entry whose score is strictly less than `threshold`.
    pub fn purge_older_than(&mut self, threshold: u64)
        requires
            old(self).well_formed(),
        ensures
            final(self).well_formed(),
            final(self)@.entries == purged(old(self)@.entries, threshold),
            final(self)@.ttl == old(self)@.ttl,
    {
        let kept = self.retained(threshold, None);
        proof {
            lemma_filter_keeps_distinct(old(self)@.entries, scored_since(threshold));
        }
        self.entries = kept;
    }

    /// Counts the entries whose score is at least `threshold`.
    pub fn count_since(&self, threshold: u64) -> (count: usize)
        ensures
            count == count_since(self@.entries, threshold),
    {
        let ghost keep = scored_since(threshold);
        let mut count: usize = 0;
        let mut i: usize = 0;
        assert(entry_views(self.entries@.take(0)) =~= Seq::<EntryView>::empty());
        assert(entry_views(self.entries@.take(0)).filter(keep).len() == 0) by {
            reveal(Seq::filter);
        }
        while i < self.entries.len()
            invariant
                i <= self.entries.len(),
                count <= i,
                keep == scored_since(threshold),
                count == entry_views(self.entries@.take(i as int)).filter(keep).len(),
            decreases self.entries.len() - i,
        {
            let entry = &self.entries[i];
            proof {
                let before = entry_views(self.entries@.take(i as int));
                assert(entry_views(self.entries@.take(i + 1)) =~= before.push(entry@));
                before.lemma_filter_push(entry@, keep);
            }
            if entry.timestamp >= threshold {
                count += 1;
            }
            i += 1;
        }
        assert(self.entries@.take(i as int) =~= self.entries@);
        count
    }

    /// The entry with the lowest score, if the window has any entry.
    pub fn oldest_entry(&self) -> (entry: Option<WindowEntry>)
        ensures
            entry is Some <==> self@.entries.len() > 0,
            match entry {
                Some(e) => oldest(self@.entries) == Some(e@),
                None => oldest(self@.entries) is None,
            },
    {
        if self.entries.len() == 0 {
            return None;
        }
        let mut best: usize = 0;
        let mut i: usize = 1;
        assert(entry_views(self.entries@.take(1)) =~= seq![self.entries@[0]@]);
        assert(oldest(entry_views(self.entries@.take(1))) == Some(self.entries@[0]@)) by {
            reveal_with_fuel(oldest, 2);
            assert(seq![self.entries@[0]@].drop_last().len() == 0);
        }
        while i < self.entries.len()
            invariant
                1 <= i <= self.entries.len(),
                best < i,
                oldest(entry_views(self.entries@.take(i as int))) == Some(self.entries@[best as int]@),
            decreases self.entries.len() - i,
        {
            proof {
                let before = entry_views(self.entries@.take(i as int));
                let now = entry_views(self.entries@.take(i + 1));
                assert(now.drop_last() =~= before);
                assert(now.last() == self.entries@[i as int]@);
            }
            if self.entries[i].timestamp < self.entries[best].timestamp {
                best = i;
            }
            i += 1;
        }
        assert(self.entries@.take(i as int) =~= self.entries@);
        let found = &self.entries[best];
        Some(WindowEntry { id: found.id.clone(), timestamp: found.timestamp })
    }
}

} // verus!
