//! The in-memory cache of run projections, with its index of child runs by
//! parent.

use vstd::prelude::*;
use crate::ids::{RunId, ulid_timestamp_ms};
use crate::projection::{RunProjection, is_fresh};
use crate::reducer::{
    ReduceError, RunEvent, applied, error_is, event_ok, lemma_applied_same_contents, lemma_unique_by_views, reducer_wf,
    same_but_last_event,
};

verus! {

/// A cached projection of one run, with the sequence number of the last
/// event folded into it.
#[derive(Debug)]
pub struct CachedRunProjection {
    pub run_id: RunId,
    pub parent_id: Option<RunId>,
    pub projection: RunProjection,
    pub last_seq: u32,
}

/// Why the cache refused an event.
#[derive(Debug, Clone, PartialEq, Eq)]
pub enum CacheError {
    /// A run not in the cache can only be started from its first event.
    CannotInitialize { event_seq: u32 },
    /// The event does not directly follow the last one folded in.
    SequenceGap { last_seq: u32, event_seq: u32 },
    /// The projection refused the event.
    Refused(ReduceError),
}

/// Filter for listing cached runs: creation-time bounds (Unix milliseconds,
/// inclusive) and an optional parent run.
#[derive(Debug, Clone, Copy, PartialEq, Eq, Default)]
pub struct ListRunsQuery {
    pub start: Option<u64>,
    pub end: Option<u64>,
    pub parent_id: Option<RunId>,
}

/// The cache: entries keyed by run id, and the ids of the child runs of each
/// parent in ascending order.
pub struct RunProjectionCacheState {
    entries: Vec<CachedRunProjection>,
    children_by_parent: Vec<(RunId, Vec<RunId>)>,
}

/// Index of the entry for run `id`, or -1.
pub open spec fn entry_index(entries: Seq<CachedRunProjection>, id: u128) -> int
    decreases entries.len(),
{
    if entries.len() == 0 {
        -1
    } else if entries.last().run_id.value() == id {
        entries.len() - 1
    } else {
        entry_index(entries.drop_last(), id)
    }
}

pub proof fn lemma_entry_index(entries: Seq<CachedRunProjection>, id: u128)
    ensures
        -1 <= entry_index(entries, id) < entries.len(),
        entry_index(entries, id) >= 0 ==> entries[entry_index(entries, id)].run_id.value() == id,
        entry_index(entries, id) < 0 ==> forall|i: int|
            0 <= i < entries.len() ==> (#[trigger] entries[i]).run_id.value() != id,
    decreases entries.len(),
{
    if entries.len() > 0 && entries.last().run_id.value() != id {
        lemma_entry_index(entries.drop_last(), id);
        if entry_index(entries, id) < 0 {
            assert forall|i: int| 0 <= i < entries.len() implies (#[trigger] entries[i]).run_id.value() != id by {
                if i < entries.len() - 1 {
                    assert(entries[i] == entries.drop_last()[i]);
                }
            }
        }
    }
}

/// Entries have distinct run ids and well-formed projections.
pub open spec fn entries_wf(entries: Seq<CachedRunProjection>) -> bool {
    &&& forall|i: int, j: int|
        0 <= i < entries.len() && 0 <= j < entries.len() && i != j ==> (#[trigger] entries[i]).run_id.value()
            != (#[trigger] entries[j]).run_id.value()
    &&& forall|i: int| 0 <= i < entries.len() ==> reducer_wf((#[trigger] entries[i]).projection)
}

/// The run ids, in ascending order.
pub open spec fn ascending(ids: Seq<RunId>) -> bool {
    forall|i: int, j: int| 0 <= i < j < ids.len() ==> ids[i].value() < ids[j].value()
}

/// Position of a parent in the child index, or -1.
pub open spec fn parent_index(index: Seq<(RunId, Vec<RunId>)>, parent: u128) -> int
    decreases index.len(),
{
    if index.len() == 0 {
        -1
    } else if index.last().0.value() == parent {
        index.len() - 1
    } else {
        parent_index(index.drop_last(), parent)
    }
}

pub proof fn lemma_parent_index(index: Seq<(RunId, Vec<RunId>)>, parent: u128)
    ensures
        -1 <= parent_index(index, parent) < index.len(),
        parent_index(index, parent) >= 0 ==> index[parent_index(index, parent)].0.value() == parent,
        parent_index(index, parent) < 0 ==> forall|i: int|
            0 <= i < index.len() ==> (#[trigger] index[i]).0.value() != parent,
    decreases index.len(),
{
    if index.len() > 0 && index.last().0.value() != parent {
        lemma_parent_index(index.drop_last(), parent);
        if parent_index(index, parent) < 0 {
            assert forall|i: int| 0 <= i < index.len() implies (#[trigger] index[i]).0.value() != parent by {
                if i < index.len() - 1 {
                    assert(index[i] == index.drop_last()[i]);
                }
            }
        }
    }
}

/// The children that the index lists for a parent (empty when none).
pub open spec fn indexed_children(index: Seq<(RunId, Vec<RunId>)>, parent: u128) -> Seq<RunId> {
    let i = parent_index(index, parent);
    if i >= 0 {
        index[i].1@
    } else {
        Seq::empty()
    }
}

/// The child index agrees with the entries: each parent appears once, with
/// a non-empty ascending list, and a run is listed under a parent exactly
/// when its entry names that parent.
pub open spec fn index_consistent(
    entries: Seq<CachedRunProjection>,
    index: Seq<(RunId, Vec<RunId>)>,
) -> bool {
    &&& forall|i: int, j: int|
        0 <= i < index.len() && 0 <= j < index.len() && i != j ==> (#[trigger] index[i]).0.value() != (
        #[trigger] index[j]).0.value()
    &&& forall|i: int| 0 <= i < index.len() ==> (#[trigger] index[i]).1@.len() > 0 && ascending(index[i].1@)
    &&& forall|p: u128, c: RunId|
        #[trigger] indexed_children(index, p).contains(c) <==> listed_under(entries, c.value(), p)
}

/// The parent of a cached run, by id value.
pub open spec fn parent_value(e: CachedRunProjection) -> Option<u128> {
    match e.parent_id {
        Some(p) => Some(p.value()),
        None => None,
    }
}

/// The entry of run `id` in `entries` (the last one, should it occur twice).
pub open spec fn entry_in(entries: Seq<CachedRunProjection>, id: u128) -> Option<CachedRunProjection> {
    let i = entry_index(entries, id);
    if i >= 0 {
        Some(entries[i])
    } else {
        None
    }
}

/// Run `c` is cached with parent `p`.
pub open spec fn listed_under(entries: Seq<CachedRunProjection>, c: u128, p: u128) -> bool {
    entry_in(entries, c) matches Some(e) && parent_value(e) == Some(p)
}

impl RunProjectionCacheState {
    pub closed spec fn entries_view(&self) -> Seq<CachedRunProjection> {
        self.entries@
    }

    pub closed spec fn index_view(&self) -> Seq<(RunId, Vec<RunId>)> {
        self.children_by_parent@
    }

    /// The cache invariant.
    pub open spec fn wf(&self) -> bool {
        &&& entries_wf(self.entries_view())
        &&& index_consistent(self.entries_view(), self.index_view())
    }

    /// The cached entry of run `id`, if any.
    pub open spec fn entry_of(&self, id: u128) -> Option<CachedRunProjection> {
        entry_in(self.entries_view(), id)
    }

    pub fn new() -> (c: RunProjectionCacheState)
        ensures
            c.wf(),
            forall|id: u128| c.entry_of(id) is None,
    {
        let c = RunProjectionCacheState { entries: Vec::new(), children_by_parent: Vec::new() };
        proof {
            assert forall|p: u128, ch: RunId|
                #[trigger] indexed_children(c.children_by_parent@, p).contains(ch) <==> listed_under(
                    c.entries@,
                    ch.value(),
                    p,
                ) by {
                assert(indexed_children(c.children_by_parent@, p) =~= Seq::<RunId>::empty());
            }
        }
        c
    }
}

/// Parents appear once each in the child index, each with a non-empty
/// ascending list.
pub open spec fn index_shape(index: Seq<(RunId, Vec<RunId>)>) -> bool {
    &&& forall|i: int, j: int|
        0 <= i < index.len() && 0 <= j < index.len() && i != j ==> (#[trigger] index[i]).0.value() != (
        #[trigger] index[j]).0.value()
    &&& forall|i: int| 0 <= i < index.len() ==> (#[trigger] index[i]).1@.len() > 0 && ascending(index[i].1@)
}

/// Run ids of the entries are distinct.
pub open spec fn ids_unique(entries: Seq<CachedRunProjection>) -> bool {
    forall|i: int, j: int|
        0 <= i < entries.len() && 0 <= j < entries.len() && i != j ==> (#[trigger] entries[i]).run_id.value()
            != (#[trigger] entries[j]).run_id.value()
}

proof fn lemma_entry_index_at(entries: Seq<CachedRunProjection>, k: int)
    requires
        ids_unique(entries),
        0 <= k < entries.len(),
    ensures
        entry_index(entries, entries[k].run_id.value()) == k,
{
    lemma_entry_index(entries, entries[k].run_id.value());
    let i = entry_index(entries, entries[k].run_id.value());
    if i != k {
        assert(entries[i].run_id.value() == entries[k].run_id.value());
    }
}

proof fn lemma_parent_index_at(index: Seq<(RunId, Vec<RunId>)>, k: int)
    requires
        index_shape(index),
        0 <= k < index.len(),
    ensures
        parent_index(index, index[k].0.value()) == k,
{
    lemma_parent_index(index, index[k].0.value());
    let i = parent_index(index, index[k].0.value());
    if i != k {
        assert(index[i].0.value() == index[k].0.value());
    }
}

/// With distinct parents, the children listed for `p` are those of the
/// index entry naming `p`.
proof fn lemma_indexed(index: Seq<(RunId, Vec<RunId>)>, p: u128, c: RunId)
    requires
        index_shape(index),
    ensures
        indexed_children(index, p).contains(c) <==> exists|k: int|
            0 <= k < index.len() && (#[trigger] index[k]).0.value() == p && index[k].1@.contains(c),
{
    lemma_parent_index(index, p);
    if exists|k: int|
        0 <= k < index.len() && (#[trigger] index[k]).0.value() == p && index[k].1@.contains(c) {
        let k = choose|k: int|
            0 <= k < index.len() && (#[trigger] index[k]).0.value() == p && index[k].1@.contains(c);
        lemma_parent_index_at(index, k);
    }
}

/// Inserts a run id into an ascending list unless it is there.
fn insert_run_sorted(list: &mut Vec<RunId>, c: RunId)
    requires
        ascending(old(list)@),
    ensures
        ascending(final(list)@),
        final(list)@.len() > 0,
        forall|x: RunId| final(list)@.contains(x) <==> (old(list)@.contains(x) || x == c),
{
    let mut p: usize = 0;
    while p < list.len() && list[p].as_u128() < c.as_u128()
        invariant
            list@ == old(list)@,
            p <= list@.len(),
            forall|k: int| 0 <= k < p ==> list@[k].value() < c.value(),
        decreases list@.len() - p,
    {
        p = p + 1;
    }
    if p < list.len() && list[p].as_u128() == c.as_u128() {
        proof {
            RunId::lemma_eq_value(list@[p as int], c);
            assert(list@[p as int] == c);
        }
        return;
    }
    let ghost before = list@;
    list.insert(p, c);
    proof {
        assert forall|a: int, b: int| 0 <= a < b < list@.len() implies list@[a].value() < list@[b].value() by {
            if b < p {
                assert(list@[a] == before[a]);
                assert(list@[b] == before[b]);
            } else if b == p {
                assert(list@[a] == before[a]);
            } else if a < p {
                assert(list@[a] == before[a]);
                assert(list@[b] == before[b - 1]);
                assert(before[p as int].value() > c.value());
            } else if a == p {
                assert(list@[b] == before[b - 1]);
                assert(before[p as int].value() > c.value());
            } else {
                assert(list@[a] == before[a - 1]);
                assert(list@[b] == before[b - 1]);
            }
        }
        assert forall|x: RunId| #[trigger] list@.contains(x) <==> (before.contains(x) || x == c) by {
            if list@.contains(x) {
                let k = choose|k: int| 0 <= k < list@.len() && list@[k] == x;
                if k < p {
                    assert(before[k] == x);
                } else if k > p {
                    assert(before[k - 1] == x);
                } else {
                    assert(list@[p as int] == c);
                }
            }
            if x == c {
                assert(list@[p as int] == c);
            } else if before.contains(x) {
                let k = choose|k: int| 0 <= k < before.len() && before[k] == x;
                if k < p {
                    assert(list@[k] == x);
                } else {
                    assert(list@[k + 1] == x);
                }
            }
        }
        assert(before == old(list)@);
        assert(forall|x: RunId| list@.contains(x) <==> (old(list)@.contains(x) || x == c));
    }
}

/// Removes a run id from an ascending list.
fn remove_run_sorted(list: &mut Vec<RunId>, c: RunId)
    requires
        ascending(old(list)@),
    ensures
        ascending(final(list)@),
        forall|x: RunId| final(list)@.contains(x) <==> (old(list)@.contains(x) && x != c),
{
    let mut p: usize = 0;
    while p < list.len() && list[p].as_u128() != c.as_u128()
        invariant
            list@ == old(list)@,
            p <= list@.len(),
            forall|k: int| 0 <= k < p ==> list@[k].value() != c.value(),
        decreases list@.len() - p,
    {
        p = p + 1;
    }
    let ghost before = list@;
    if p == list.len() {
        proof {
            assert forall|x: RunId| before.contains(x) implies x != c by {
                let k = choose|k: int| 0 <= k < before.len() && before[k] == x;
                RunId::lemma_eq_value(before[k], c);
            }
        }
        return;
    }
    proof {
        RunId::lemma_eq_value(list@[p as int], c);
    }
    list.remove(p);
    proof {
        assert forall|a: int, b: int| 0 <= a < b < list@.len() implies list@[a].value() < list@[b].value() by {
            let a2 = if a < p { a } else { a + 1 };
            let b2 = if b < p { b } else { b + 1 };
            assert(list@[a] == before[a2]);
            assert(list@[b] == before[b2]);
        }
        assert forall|x: RunId| list@.contains(x) implies (before.contains(x) && x != c) by {
            let k = choose|k: int| 0 <= k < list@.len() && list@[k] == x;
            let k2 = if k < p { k } else { k + 1 };
            assert(before[k2] == x);
            assert(before[k2].value() != before[p as int].value());
            RunId::lemma_eq_value(x, c);
        }
        assert forall|x: RunId| (before.contains(x) && x != c) implies list@.contains(x) by {
            let k = choose|k: int| 0 <= k < before.len() && before[k] == x;
            assert(k != p);
            if k < p {
                assert(list@[k] == x);
            } else {
                assert(list@[k - 1] == x);
            }
        }
    }
}

impl RunProjectionCacheState {
    fn find_entry(&self, id: u128) -> (r: Option<usize>)
        ensures
            r matches Some(i) ==> i < self.entries@.len() && self.entries@[i as int].run_id.value() == id,
            r is None ==> forall|k: int| 0 <= k < self.entries@.len() ==> (#[trigger] self.entries@[k]).run_id.value() != id,
    {
        let mut i: usize = 0;
        while i < self.entries.len()
            invariant
                i <= self.entries@.len(),
                forall|k: int| 0 <= k < i ==> (#[trigger] self.entries@[k]).run_id.value() != id,
            decreases self.entries.len() - i,
        {
            if self.entries[i].run_id.as_u128() == id {
                return Some(i);
            }
            i = i + 1;
        }
        None
    }

    fn find_parent(&self, p: u128) -> (r: Option<usize>)
        ensures
            r matches Some(i) ==> i < self.children_by_parent@.len() && self.children_by_parent@[i as int].0.value() == p,
            r is None ==> forall|k: int| 0 <= k < self.children_by_parent@.len() ==> (#[trigger] self.children_by_parent@[k]).0.value() != p,
    {
        let mut i: usize = 0;
        while i < self.children_by_parent.len()
            invariant
                i <= self.children_by_parent@.len(),
                forall|k: int| 0 <= k < i ==> (#[trigger] self.children_by_parent@[k]).0.value() != p,
            decreases self.children_by_parent.len() - i,
        {
            if self.children_by_parent[i].0.as_u128() == p {
                return Some(i);
            }
            i = i + 1;
        }
        None
    }

    /// Lists `child` under `parent` in the index.
    fn index_add(&mut self, parent: RunId, child: RunId)
        requires
            index_shape(old(self).children_by_parent@),
        ensures
            index_shape(final(self).children_by_parent@),
            final(self).entries == old(self).entries,
            forall|p: u128, c: RunId|
                #[trigger] indexed_children(final(self).children_by_parent@, p).contains(c) <==> (
                indexed_children(old(self).children_by_parent@, p).contains(c) || (p == parent.value()
                    && c == child)),
    {
        let ghost before = self.children_by_parent@;
        match self.find_parent(parent.as_u128()) {
            Some(i) => {
                let ghost old_list = before[i as int].1@;
                let entry = &mut self.children_by_parent[i];
                insert_run_sorted(&mut entry.1, child);
                proof {
                    let after = self.children_by_parent@;
                    assert forall|k: int| 0 <= k < after.len() && k != i implies after[k] == before[k] by {}
                    assert(after[i as int].0 == before[i as int].0);
                    assert(index_shape(after)) by {
                        assert forall|a: int, b: int|
                            0 <= a < after.len() && 0 <= b < after.len() && a != b implies (
                            #[trigger] after[a]).0.value() != (#[trigger] after[b]).0.value() by {
                            assert(after[a].0 == before[a].0);
                            assert(after[b].0 == before[b].0);
                        }
                    }
                    assert forall|p: u128, c: RunId|
                        #[trigger] indexed_children(after, p).contains(c) <==> (indexed_children(before, p).contains(c)
                            || (p == parent.value() && c == child)) by {
                        lemma_indexed(after, p, c);
                        lemma_indexed(before, p, c);
                        if indexed_children(before, p).contains(c) {
                            let k = choose|k: int|
                                0 <= k < before.len() && (#[trigger] before[k]).0.value() == p && before[k].1@.contains(c);
                            assert(after[k].0.value() == p);
                            if k != i {
                                assert(after[k] == before[k]);
                            }
                            assert(after[k].1@.contains(c));
                        }
                        if p == parent.value() && c == child {
                            assert(after[i as int].0.value() == p);
                            assert(after[i as int].1@.contains(c));
                        }
                        if indexed_children(after, p).contains(c) {
                            let k = choose|k: int|
                                0 <= k < after.len() && (#[trigger] after[k]).0.value() == p && after[k].1@.contains(c);
                            if k != i {
                                assert(after[k] == before[k]);
                                assert(before[k].0.value() == p);
                            } else if c != child {
                                assert(before[i as int].1@.contains(c));
                                assert(before[i as int].0.value() == p);
                            }
                        }
                    }
                }
            },
            None => {
                let mut list: Vec<RunId> = Vec::new();
                list.push(child);
                self.children_by_parent.push((parent, list));
                proof {
                    let after = self.children_by_parent@;
                    let n = before.len() as int;
                    assert(after[n].1@ =~= seq![child]);
                    assert forall|k: int| 0 <= k < n implies after[k] == before[k] by {}
                    assert(index_shape(after)) by {
                        assert forall|a: int, b: int|
                            0 <= a < after.len() && 0 <= b < after.len() && a != b implies (
                            #[trigger] after[a]).0.value() != (#[trigger] after[b]).0.value() by {
                            if a < n && b < n {
                            } else if a < n {
                                assert(before[a].0.value() != parent.value());
                            } else {
                                assert(before[b].0.value() != parent.value());
                            }
                        }
                        assert forall|k: int| 0 <= k < after.len() implies (#[trigger] after[k]).1@.len() > 0 && ascending(after[k].1@) by {
                            if k < n {
                                assert(after[k] == before[k]);
                            }
                        }
                    }
                    assert forall|p: u128, c: RunId|
                        #[trigger] indexed_children(after, p).contains(c) <==> (indexed_children(before, p).contains(c)
                            || (p == parent.value() && c == child)) by {
                        lemma_indexed(after, p, c);
                        lemma_indexed(before, p, c);
                        if indexed_children(before, p).contains(c) {
                            let k = choose|k: int|
                                0 <= k < before.len() && (#[trigger] before[k]).0.value() == p && before[k].1@.contains(c);
                            assert(after[k] == before[k]);
                        }
                        if p == parent.value() && c == child {
                            assert(after[n].1@[0] == child);
                            assert(after[n].1@.contains(c));
                        }
                        if indexed_children(after, p).contains(c) {
                            let k = choose|k: int|
                                0 <= k < after.len() && (#[trigger] after[k]).0.value() == p && after[k].1@.contains(c);
                            if k < n {
                                assert(after[k] == before[k]);
                            } else {
                                let j = choose|j: int| 0 <= j < after[n].1@.len() && after[n].1@[j] == c;
                                assert(j == 0);
                            }
                        }
                    }
                }
            },
        }
    }
}

impl RunProjectionCacheState {
    /// Stops listing `child` under `parent` in the index.
    fn index_remove(&mut self, parent: RunId, child: RunId)
        requires
            index_shape(old(self).children_by_parent@),
        ensures
            index_shape(final(self).children_by_parent@),
            final(self).entries == old(self).entries,
            forall|p: u128, c: RunId|
                #[trigger] indexed_children(final(self).children_by_parent@, p).contains(c) <==> (
                indexed_children(old(self).children_by_parent@, p).contains(c) && !(p
                    == parent.value() && c == child)),
    {
        let ghost before = self.children_by_parent@;
        match self.find_parent(parent.as_u128()) {
            Some(i) => {
                let entry = &mut self.children_by_parent[i];
                remove_run_sorted(&mut entry.1, child);
                let now_empty = self.children_by_parent[i].1.len() == 0;
                let ghost mid = self.children_by_parent@;
                proof {
                    assert forall|k: int| 0 <= k < mid.len() && k != i implies mid[k] == before[k] by {}
                    assert(mid[i as int].0 == before[i as int].0);
                    assert forall|p: u128, c: RunId|
                        #[trigger] indexed_children(before, p).contains(c) implies (exists|k: int|
                            0 <= k < before.len() && (#[trigger] before[k]).0.value() == p && before[k].1@.contains(c)) by {
                        lemma_indexed(before, p, c);
                    }
                }
                if now_empty {
                    self.children_by_parent.remove(i);
                    proof {
                        let after = self.children_by_parent@;
                        assert(index_shape(after)) by {
                            assert forall|a: int, b: int|
                                0 <= a < after.len() && 0 <= b < after.len() && a != b implies (
                                #[trigger] after[a]).0.value() != (#[trigger] after[b]).0.value() by {
                                let a2 = if a < i { a } else { a + 1 };
                                let b2 = if b < i { b } else { b + 1 };
                                assert(after[a] == before[a2]);
                                assert(after[b] == before[b2]);
                            }
                            assert forall|k: int| 0 <= k < after.len() implies (#[trigger] after[k]).1@.len() > 0 && ascending(after[k].1@) by {
                                let k2 = if k < i { k } else { k + 1 };
                                assert(after[k] == before[k2]);
                            }
                        }
                        assert forall|p: u128, c: RunId|
                            #[trigger] indexed_children(after, p).contains(c) <==> (indexed_children(before, p).contains(c)
                                && !(p == parent.value() && c == child)) by {
                            lemma_indexed(after, p, c);
                            lemma_indexed(before, p, c);
                            if indexed_children(before, p).contains(c) && !(p == parent.value() && c == child) {
                                let k = choose|k: int|
                                    0 <= k < before.len() && (#[trigger] before[k]).0.value() == p && before[k].1@.contains(c);
                                if k == i {
                                    assert(mid[i as int].1@.contains(c));
                                    assert(mid[i as int].1@.len() == 0);
                                    assert(false);
                                }
                                let k2 = if k < i { k } else { k - 1 };
                                assert(after[k2] == before[k]);
                            }
                            if indexed_children(after, p).contains(c) {
                                let k = choose|k: int|
                                    0 <= k < after.len() && (#[trigger] after[k]).0.value() == p && after[k].1@.contains(c);
                                let k2 = if k < i { k } else { k + 1 };
                                assert(after[k] == before[k2]);
                                assert(k2 != i);
                                if p == parent.value() {
                                    assert(before[k2].0.value() == before[i as int].0.value());
                                }
                            }
                        }
                    }
                } else {
                    proof {
                        let after = self.children_by_parent@;
                        assert(index_shape(after)) by {
                            assert forall|a: int, b: int|
                                0 <= a < after.len() && 0 <= b < after.len() && a != b implies (
                                #[trigger] after[a]).0.value() != (#[trigger] after[b]).0.value() by {
                                assert(after[a].0 == before[a].0);
                                assert(after[b].0 == before[b].0);
                            }
                        }
                        assert forall|p: u128, c: RunId|
                            #[trigger] indexed_children(after, p).contains(c) <==> (indexed_children(before, p).contains(c)
                                && !(p == parent.value() && c == child)) by {
                            lemma_indexed(after, p, c);
                            lemma_indexed(before, p, c);
                            if indexed_children(before, p).contains(c) && !(p == parent.value() && c == child) {
                                let k = choose|k: int|
                                    0 <= k < before.len() && (#[trigger] before[k]).0.value() == p && before[k].1@.contains(c);
                                if k != i {
                                    assert(after[k] == before[k]);
                                } else {
                                    assert(c != child);
                                    assert(after[i as int].1@.contains(c));
                                }
                                assert(after[k].0.value() == p);
                            }
                            if indexed_children(after, p).contains(c) {
                                let k = choose|k: int|
                                    0 <= k < after.len() && (#[trigger] after[k]).0.value() == p && after[k].1@.contains(c);
                                if k != i {
                                    assert(after[k] == before[k]);
                                    assert(before[k].0.value() != before[i as int].0.value());
                                } else {
                                    assert(before[i as int].1@.contains(c));
                                }
                            }
                        }
                    }
                }
            },
            None => {
                proof {
                    assert forall|p: u128, c: RunId|
                        #[trigger] indexed_children(before, p).contains(c) <==> (indexed_children(before, p).contains(c)
                            && !(p == parent.value() && c == child)) by {
                        lemma_indexed(before, p, c);
                        if indexed_children(before, p).contains(c) && p == parent.value() {
                            let k = choose|k: int|
                                0 <= k < before.len() && (#[trigger] before[k]).0.value() == p && before[k].1@.contains(c);
                            assert(before[k].0.value() != parent.value());
                        }
                    }
                }
            },
        }
    }
}

proof fn lemma_entry_in_at(entries: Seq<CachedRunProjection>, k: int)
    requires
        ids_unique(entries),
        0 <= k < entries.len(),
    ensures
        entry_in(entries, entries[k].run_id.value()) == Some(entries[k]),
{
    lemma_entry_index_at(entries, k);
}

proof fn lemma_entry_in_absent(entries: Seq<CachedRunProjection>, id: u128)
    requires
        forall|k: int| 0 <= k < entries.len() ==> (#[trigger] entries[k]).run_id.value() != id,
    ensures
        entry_in(entries, id) is None,
{
    lemma_entry_index(entries, id);
}

/// Overwriting the entry of a run with one of the same run changes only
/// what that run maps to.
proof fn lemma_entry_in_update(entries: Seq<CachedRunProjection>, i: int, e: CachedRunProjection)
    requires
        ids_unique(entries),
        0 <= i < entries.len(),
        e.run_id.value() == entries[i].run_id.value(),
    ensures
        ids_unique(entries.update(i, e)),
        forall|x: u128|
            #[trigger] entry_in(entries.update(i, e), x) == if x == e.run_id.value() {
                Some(e)
            } else {
                entry_in(entries, x)
            },
{
    let u = entries.update(i, e);
    assert forall|a: int, b: int|
        0 <= a < u.len() && 0 <= b < u.len() && a != b implies (#[trigger] u[a]).run_id.value()
        != (#[trigger] u[b]).run_id.value() by {
        assert(u[a].run_id.value() == entries[a].run_id.value());
        assert(u[b].run_id.value() == entries[b].run_id.value());
    }
    assert forall|x: u128|
        #[trigger] entry_in(u, x) == if x == e.run_id.value() {
            Some(e)
        } else {
            entry_in(entries, x)
        } by {
        if x == e.run_id.value() {
            lemma_entry_in_at(u, i);
        } else {
            lemma_entry_index(entries, x);
            let k = entry_index(entries, x);
            if k >= 0 {
                lemma_entry_in_at(u, k);
                lemma_entry_in_at(entries, k);
            } else {
                assert forall|j: int| 0 <= j < u.len() implies (#[trigger] u[j]).run_id.value() != x by {
                    if j != i {
                        assert(u[j] == entries[j]);
                    }
                }
                lemma_entry_in_absent(u, x);
            }
        }
    }
}

/// Appending the entry of a new run adds just that run.
proof fn lemma_entry_in_push(entries: Seq<CachedRunProjection>, e: CachedRunProjection)
    requires
        ids_unique(entries),
        forall|k: int| 0 <= k < entries.len() ==> (#[trigger] entries[k]).run_id.value() != e.run_id.value(),
    ensures
        ids_unique(entries.push(e)),
        forall|x: u128|
            #[trigger] entry_in(entries.push(e), x) == if x == e.run_id.value() {
                Some(e)
            } else {
                entry_in(entries, x)
            },
{
    let u = entries.push(e);
    assert(u.drop_last() =~= entries);
    assert forall|a: int, b: int|
        0 <= a < u.len() && 0 <= b < u.len() && a != b implies (#[trigger] u[a]).run_id.value()
        != (#[trigger] u[b]).run_id.value() by {
        if a < entries.len() && b < entries.len() {
            assert(u[a] == entries[a]);
            assert(u[b] == entries[b]);
        } else if a < entries.len() {
            assert(u[a] == entries[a]);
        } else {
            assert(u[b] == entries[b]);
        }
    }
    assert forall|x: u128|
        #[trigger] entry_in(u, x) == if x == e.run_id.value() {
            Some(e)
        } else {
            entry_in(entries, x)
        } by {
        assert(u.last() == e);
        assert(entry_index(u, x) == if x == e.run_id.value() {
            entries.len() as int
        } else {
            entry_index(entries, x)
        });
        lemma_entry_index(entries, x);
    }
}

/// Removing the entry at `i` forgets just that run.
proof fn lemma_entry_in_remove(entries: Seq<CachedRunProjection>, i: int)
    requires
        ids_unique(entries),
        0 <= i < entries.len(),
    ensures
        ids_unique(entries.remove(i)),
        forall|x: u128|
            #[trigger] entry_in(entries.remove(i), x) == if x == entries[i].run_id.value() {
                None
            } else {
                entry_in(entries, x)
            },
{
    let u = entries.remove(i);
    assert forall|a: int, b: int|
        0 <= a < u.len() && 0 <= b < u.len() && a != b implies (#[trigger] u[a]).run_id.value()
        != (#[trigger] u[b]).run_id.value() by {
        let a2 = if a < i { a } else { a + 1 };
        let b2 = if b < i { b } else { b + 1 };
        assert(u[a] == entries[a2]);
        assert(u[b] == entries[b2]);
    }
    assert forall|x: u128|
        #[trigger] entry_in(u, x) == if x == entries[i].run_id.value() {
            None
        } else {
            entry_in(entries, x)
        } by {
        if x == entries[i].run_id.value() {
            assert forall|j: int| 0 <= j < u.len() implies (#[trigger] u[j]).run_id.value() != x by {
                let j2 = if j < i { j } else { j + 1 };
                assert(u[j] == entries[j2]);
            }
            lemma_entry_in_absent(u, x);
        } else {
            lemma_entry_index(entries, x);
            let k = entry_index(entries, x);
            if k >= 0 {
                let k2 = if k < i { k } else { k - 1 };
                assert(u[k2] == entries[k]);
                lemma_entry_in_at(u, k2);
                lemma_entry_in_at(entries, k);
            } else {
                assert forall|j: int| 0 <= j < u.len() implies (#[trigger] u[j]).run_id.value() != x by {
                    let j2 = if j < i { j } else { j + 1 };
                    assert(u[j] == entries[j2]);
                }
                lemma_entry_in_absent(u, x);
            }
        }
    }
}

impl RunProjectionCacheState {
    /// Caches `entry`, replacing any entry of the same run, and files the run
    /// under its parent in the child index (leaving its former parent's list).
    pub fn insert(&mut self, entry: CachedRunProjection)
        requires
            old(self).wf(),
            reducer_wf(entry.projection),
        ensures
            final(self).wf(),
            forall|id: u128|
                #[trigger] final(self).entry_of(id) == if id == entry.run_id.value() {
                    Some(entry)
                } else {
                    old(self).entry_of(id)
                },
    {
        let run_id = entry.run_id;
        let parent = entry.parent_id;
        let ghost e0 = self.entries@;
        let ghost ix0 = self.children_by_parent@;
        let ghost prev: Option<CachedRunProjection> = entry_in(e0, run_id.value());
        match self.find_entry(run_id.as_u128()) {
            Some(i) => {
                proof {
                    lemma_entry_in_at(e0, i as int);
                    lemma_entry_in_update(e0, i as int, entry);
                }
                match self.entries[i].parent_id {
                    Some(pp) => self.index_remove(pp, run_id),
                    None => {},
                }
                self.entries[i] = entry;
            },
            None => {
                proof {
                    lemma_entry_in_absent(e0, run_id.value());
                    lemma_entry_in_push(e0, entry);
                }
                self.entries.push(entry);
            },
        }
        let ghost ix1 = self.children_by_parent@;
        match parent {
            Some(p) => self.index_add(p, run_id),
            None => {},
        }
        proof {
            let e2 = self.entries@;
            let ix2 = self.children_by_parent@;
            assert forall|x: u128|
                #[trigger] entry_in(e2, x) == if x == run_id.value() {
                    Some(entry)
                } else {
                    entry_in(e0, x)
                } by {}
            assert forall|i: int| 0 <= i < e2.len() implies reducer_wf((#[trigger] e2[i]).projection) by {
                if i < e0.len() && e2[i] != entry {
                    assert(e2[i] == e0[i]);
                }
            }
            assert forall|p: u128, c: RunId|
                #[trigger] indexed_children(ix2, p).contains(c) <==> listed_under(e2, c.value(), p) by {
                RunId::lemma_eq_value(c, run_id);
                assert(indexed_children(ix0, p).contains(c) <==> listed_under(e0, c.value(), p));
                if c.value() == run_id.value() {
                    assert(entry_in(e2, c.value()) == Some(entry));
                    assert(listed_under(e0, c.value(), p) <==> (prev matches Some(pe) && parent_value(pe) == Some(p)));
                } else {
                    assert(entry_in(e2, c.value()) == entry_in(e0, c.value()));
                }
            }
        }
    }
}

impl RunProjectionCacheState {
    /// Drops the entry of a run, and the run from its parent's list.
    pub fn remove(&mut self, run_id: &RunId)
        requires
            old(self).wf(),
        ensures
            final(self).wf(),
            forall|id: u128|
                #[trigger] final(self).entry_of(id) == if id == run_id.value() {
                    None
                } else {
                    old(self).entry_of(id)
                },
    {
        let ghost e0 = self.entries@;
        let ghost ix0 = self.children_by_parent@;
        match self.find_entry(run_id.as_u128()) {
            Some(i) => {
                proof {
                    lemma_entry_in_at(e0, i as int);
                    lemma_entry_in_remove(e0, i as int);
                }
                let gone = self.entries.remove(i);
                match gone.parent_id {
                    Some(pp) => self.index_remove(pp, *run_id),
                    None => {},
                }
                proof {
                    let e2 = self.entries@;
                    let ix2 = self.children_by_parent@;
                    assert(e2 == e0.remove(i as int));
                    assert forall|k: int| 0 <= k < e2.len() implies reducer_wf((#[trigger] e2[k]).projection) by {
                        let k2 = if k < i { k } else { k + 1 };
                        assert(e2[k] == e0[k2]);
                    }
                    assert forall|p: u128, c: RunId|
                        #[trigger] indexed_children(ix2, p).contains(c) <==> listed_under(e2, c.value(), p) by {
                        RunId::lemma_eq_value(c, *run_id);
                        assert(indexed_children(ix0, p).contains(c) <==> listed_under(e0, c.value(), p));
                        assert(entry_in(e2, c.value()) == if c.value() == run_id.value() {
                            None
                        } else {
                            entry_in(e0, c.value())
                        });
                    }
                }
            },
            None => {
                proof {
                    assert forall|id: u128| #[trigger] entry_in(e0, id) == if id == run_id.value() {
                        None
                    } else {
                        entry_in(e0, id)
                    } by {
                        if id == run_id.value() {
                            lemma_entry_in_absent(e0, id);
                        }
                    }
                }
            },
        }
    }
}

/// The entry of a run in a sequence with one more entry at its end.
proof fn lemma_entry_in_append(entries: Seq<CachedRunProjection>, e: CachedRunProjection, x: u128)
    ensures
        entry_in(entries.push(e), x) == if x == e.run_id.value() {
            Some(e)
        } else {
            entry_in(entries, x)
        },
{
    let u = entries.push(e);
    assert(u.drop_last() =~= entries);
    assert(u.last() == e);
    lemma_entry_index(entries, x);
}

impl RunProjectionCacheState {
    /// Replaces the whole cache by `entries`; where a run occurs twice, the
    /// later entry wins.
    pub fn replace_all(&mut self, entries: Vec<CachedRunProjection>)
        requires
            forall|i: int| 0 <= i < entries@.len() ==> reducer_wf((#[trigger] entries@[i]).projection),
        ensures
            final(self).wf(),
            forall|id: u128| #[trigger] final(self).entry_of(id) == entry_in(entries@, id),
    {
        *self = RunProjectionCacheState::new();
        let ghost input = entries@;
        let mut rest = entries;
        while rest.len() > 0
            invariant
                self.wf(),
                rest@.len() <= input.len(),
                rest@ == input.subrange(input.len() - rest@.len(), input.len() as int),
                forall|i: int| 0 <= i < input.len() ==> reducer_wf((#[trigger] input[i]).projection),
                forall|id: u128|
                    #[trigger] self.entry_of(id) == entry_in(input.take(input.len() - rest@.len()), id),
            decreases rest@.len(),
        {
            let ghost done = input.len() - rest@.len();
            let e = rest.remove(0);
            assert(e == input[done]);
            self.insert(e);
            proof {
                assert(input.take(done + 1) =~= input.take(done).push(e));
                assert forall|id: u128|
                    #[trigger] self.entry_of(id) == entry_in(input.take(input.len() - rest@.len()), id) by {
                    lemma_entry_in_append(input.take(done), e, id);
                }
                assert(rest@ =~= input.subrange(input.len() - rest@.len(), input.len() as int));
            }
        }
        proof {
            assert(input.take(input.len() as int) =~= input);
        }
    }

    /// The cached entry of a run.
    pub fn get(&self, run_id: &RunId) -> (r: Option<&CachedRunProjection>)
        requires
            self.wf(),
        ensures
            r is Some == self.entry_of(run_id.value()) is Some,
            r matches Some(e) ==> self.entry_of(run_id.value()) == Some(*e),
    {
        match self.find_entry(run_id.as_u128()) {
            Some(i) => {
                proof {
                    lemma_entry_in_at(self.entries@, i as int);
                }
                Some(&self.entries[i])
            },
            None => {
                proof {
                    lemma_entry_in_absent(self.entries@, run_id.value());
                }
                None
            },
        }
    }
}

/// Two entries with the same contents.
pub open spec fn same_entry(a: CachedRunProjection, b: CachedRunProjection) -> bool {
    &&& a.run_id == b.run_id
    &&& a.parent_id == b.parent_id
    &&& a.last_seq == b.last_seq
    &&& same_but_last_event(a.projection, b.projection)
    &&& a.projection.last_event_at == b.projection.last_event_at
}

impl CachedRunProjection {
    /// A copy with the same contents.
    pub fn duplicate(&self) -> (r: CachedRunProjection)
        ensures
            same_entry(r, *self),
    {
        CachedRunProjection {
            run_id: self.run_id,
            parent_id: self.parent_id,
            projection: self.projection.duplicate(),
            last_seq: self.last_seq,
        }
    }
}

/// An entry passes the filters of a query: its parent, and its creation
/// time within the bounds.
pub open spec fn matches_query(q: ListRunsQuery, e: CachedRunProjection) -> bool {
    &&& (q.parent_id matches Some(p) ==> parent_value(e) == Some(p.value()))
    &&& within_query_bounds(q, e.run_id.value())
}

/// The creation time of run `id` lies within the query's bounds.
pub open spec fn within_query_bounds(q: ListRunsQuery, id: u128) -> bool {
    &&& (q.start matches Some(start) ==> ulid_timestamp_ms(id) >= start)
    &&& (q.end matches Some(end) ==> ulid_timestamp_ms(id) <= end)
}

/// Strictly descending values.
pub open spec fn descending(ids: Seq<u128>) -> bool {
    forall|i: int, j: int| 0 <= i < j < ids.len() ==> ids[i] > ids[j]
}

/// Inserts a value into a strictly descending list unless it is there.
fn insert_descending(list: &mut Vec<u128>, x: u128)
    requires
        descending(old(list)@),
    ensures
        descending(final(list)@),
        forall|y: u128| final(list)@.contains(y) <==> (old(list)@.contains(y) || y == x),
{
    let mut p: usize = 0;
    while p < list.len() && list[p] > x
        invariant
            list@ == old(list)@,
            p <= list@.len(),
            forall|k: int| 0 <= k < p ==> list@[k] > x,
        decreases list@.len() - p,
    {
        p = p + 1;
    }
    if p < list.len() && list[p] == x {
        return;
    }
    let ghost before = list@;
    list.insert(p, x);
    proof {
        assert forall|a: int, b: int| 0 <= a < b < list@.len() implies list@[a] > list@[b] by {
            if b < p {
                assert(list@[a] == before[a]);
                assert(list@[b] == before[b]);
            } else if b == p {
                assert(list@[a] == before[a]);
            } else if a < p {
                assert(list@[a] == before[a]);
                assert(list@[b] == before[b - 1]);
            } else if a == p {
                assert(list@[b] == before[b - 1]);
            } else {
                assert(list@[a] == before[a - 1]);
                assert(list@[b] == before[b - 1]);
            }
        }
        assert forall|y: u128| list@.contains(y) <==> (before.contains(y) || y == x) by {
            if list@.contains(y) {
                let k = choose|k: int| 0 <= k < list@.len() && list@[k] == y;
                if k < p {
                    assert(before[k] == y);
                } else if k > p {
                    assert(before[k - 1] == y);
                }
            }
            if y == x {
                assert(list@[p as int] == x);
            } else if before.contains(y) {
                let k = choose|k: int| 0 <= k < before.len() && before[k] == y;
                if k < p {
                    assert(list@[k] == y);
                } else {
                    assert(list@[k + 1] == y);
                }
            }
        }
    }
}

/// Whether a run's creation time falls within the query's bounds.
fn within_bounds(q: &ListRunsQuery, id: &RunId) -> (b: bool)
    ensures
        b == within_query_bounds(*q, id.value()),
{
    let created = id.created_at_ms();
    let after_start = match q.start {
        Some(start) => created >= start,
        None => true,
    };
    let before_end = match q.end {
        Some(end) => created <= end,
        None => true,
    };
    after_start && before_end
}

proof fn lemma_entry_in_id(entries: Seq<CachedRunProjection>, id: u128)
    ensures
        entry_in(entries, id) matches Some(e) ==> e.run_id.value() == id,
        entry_in(entries, id) is None ==> forall|k: int|
            0 <= k < entries.len() ==> (#[trigger] entries[k]).run_id.value() != id,
{
    lemma_entry_index(entries, id);
}

impl RunProjectionCacheState {
    /// The ids of the cached runs that pass the query, newest first.
    fn matching_ids(&self, q: &ListRunsQuery) -> (ids: Vec<u128>)
        requires
            self.wf(),
        ensures
            descending(ids@),
            forall|id: u128|
                #[trigger] ids@.contains(id) <==> (self.entry_of(id) matches Some(e) && matches_query(*q, e)),
    {
        let ghost entries = self.entries@;
        let ghost index = self.children_by_parent@;
        let mut ids: Vec<u128> = Vec::new();
        match q.parent_id {
            Some(p) => {
                match self.find_parent(p.as_u128()) {
                    Some(k) => {
                        let children = &self.children_by_parent[k].1;
                        let mut j: usize = 0;
                        while j < children.len()
                            invariant
                                j <= children@.len(),
                                descending(ids@),
                                forall|id: u128|
                                    #[trigger] ids@.contains(id) <==> exists|t: int|
                                        0 <= t < j && (#[trigger] children@[t]).value() == id
                                            && within_query_bounds(*q, id),
                            decreases children@.len() - j,
                        {
                            let c = children[j];
                            let ghost before = ids@;
                            if within_bounds(q, &c) {
                                insert_descending(&mut ids, c.as_u128());
                            }
                            proof {
                                assert forall|id: u128|
                                    #[trigger] ids@.contains(id) <==> exists|t: int|
                                        0 <= t < j + 1 && (#[trigger] children@[t]).value() == id
                                            && within_query_bounds(*q, id) by {
                                    if exists|t: int|
                                        0 <= t < j + 1 && (#[trigger] children@[t]).value() == id
                                            && within_query_bounds(*q, id) {
                                        let t = choose|t: int|
                                            0 <= t < j + 1 && (#[trigger] children@[t]).value() == id
                                                && within_query_bounds(*q, id);
                                        if t < j {
                                            assert(before.contains(id));
                                        }
                                    }
                                }
                            }
                            j = j + 1;
                        }
                        proof {
                            lemma_parent_index_at(index, k as int);
                            assert(indexed_children(index, p.value()) == children@);
                            assert forall|id: u128|
                                #[trigger] ids@.contains(id) <==> (self.entry_of(id) matches Some(e)
                                    && matches_query(*q, e)) by {
                                lemma_entry_in_id(entries, id);
                                if ids@.contains(id) {
                                    let t = choose|t: int|
                                        0 <= t < children@.len() && (#[trigger] children@[t]).value() == id
                                            && within_query_bounds(*q, id);
                                    assert(children@.contains(children@[t]));
                                    assert(listed_under(entries, children@[t].value(), p.value()));
                                }
                                if self.entry_of(id) is Some && matches_query(*q, self.entry_of(id).unwrap()) {
                                    let e = self.entry_of(id).unwrap();
                                    assert(listed_under(entries, e.run_id.value(), p.value()));
                                    assert(indexed_children(index, p.value()).contains(e.run_id));
                                    let t = choose|t: int| 0 <= t < children@.len() && children@[t] == e.run_id;
                                    assert((#[trigger] children@[t]).value() == id);
                                }
                            }
                        }
                    },
                    None => {
                        proof {
                            lemma_parent_index(index, p.value());
                            assert(indexed_children(index, p.value()) =~= Seq::<RunId>::empty());
                            assert forall|id: u128|
                                #[trigger] ids@.contains(id) <==> (self.entry_of(id) matches Some(e)
                                    && matches_query(*q, e)) by {
                                lemma_entry_in_id(entries, id);
                                if self.entry_of(id) is Some && matches_query(*q, self.entry_of(id).unwrap()) {
                                    let e = self.entry_of(id).unwrap();
                                    assert(listed_under(entries, e.run_id.value(), p.value()));
                                    assert(indexed_children(index, p.value()).contains(e.run_id));
                                }
                            }
                        }
                    },
                }
            },
            None => {
                let mut j: usize = 0;
                while j < self.entries.len()
                    invariant
                        j <= entries.len(),
                        entries == self.entries@,
                        descending(ids@),
                        forall|id: u128|
                            #[trigger] ids@.contains(id) <==> exists|t: int|
                                0 <= t < j && (#[trigger] entries[t]).run_id.value() == id
                                    && within_query_bounds(*q, id),
                    decreases entries.len() - j,
                {
                    let c = self.entries[j].run_id;
                    let ghost before = ids@;
                    if within_bounds(q, &c) {
                        insert_descending(&mut ids, c.as_u128());
                    }
                    proof {
                        assert forall|id: u128|
                            #[trigger] ids@.contains(id) <==> exists|t: int|
                                0 <= t < j + 1 && (#[trigger] entries[t]).run_id.value() == id
                                    && within_query_bounds(*q, id) by {
                            if exists|t: int|
                                0 <= t < j + 1 && (#[trigger] entries[t]).run_id.value() == id
                                    && within_query_bounds(*q, id) {
                                let t = choose|t: int|
                                    0 <= t < j + 1 && (#[trigger] entries[t]).run_id.value() == id
                                        && within_query_bounds(*q, id);
                                if t < j {
                                    assert(before.contains(id));
                                }
                            }
                        }
                    }
                    j = j + 1;
                }
                proof {
                    assert forall|id: u128|
                        #[trigger] ids@.contains(id) <==> (self.entry_of(id) matches Some(e) && matches_query(
                            *q,
                            e,
                        )) by {
                        lemma_entry_in_id(entries, id);
                        if ids@.contains(id) {
                            let t = choose|t: int|
                                0 <= t < entries.len() && (#[trigger] entries[t]).run_id.value() == id
                                    && within_query_bounds(*q, id);
                            lemma_entry_in_at(entries, t);
                        }
                        if self.entry_of(id) is Some {
                            lemma_entry_index(entries, id);
                            let t = entry_index(entries, id);
                            assert(entries[t].run_id.value() == id);
                        }
                    }
                }
            },
        }
        ids
    }
}

/// A larger ULID value never carries an earlier timestamp.
pub proof fn lemma_timestamp_monotone(a: u128, b: u128)
    requires
        a >= b,
    ensures
        ulid_timestamp_ms(a) >= ulid_timestamp_ms(b),
{
    assert(a as int / 0x1_0000_0000_0000_0000_0000 >= b as int / 0x1_0000_0000_0000_0000_0000) by (nonlinear_arith)
        requires
            a as int >= b as int,
            b as int >= 0,
    ;
}

impl RunProjectionCacheState {
    /// The cached runs that pass the query, newest first: by creation time,
    /// then by id, both descending.
    pub fn list(&self, query: &ListRunsQuery) -> (r: Vec<CachedRunProjection>)
        requires
            self.wf(),
        ensures
            forall|i: int|
                0 <= i < r@.len() ==> (self.entry_of((#[trigger] r@[i]).run_id.value()) matches Some(e)
                    && same_entry(r@[i], e) && matches_query(*query, e)),
            forall|id: u128|
                (#[trigger] self.entry_of(id) matches Some(e) && matches_query(*query, e)) ==> exists|i: int|
                    0 <= i < r@.len() && (#[trigger] r@[i]).run_id.value() == id,
            forall|i: int, j: int|
                0 <= i < j < r@.len() ==> ulid_timestamp_ms((#[trigger] r@[i]).run_id.value()) >= ulid_timestamp_ms(
                    (#[trigger] r@[j]).run_id.value(),
                ) && r@[i].run_id.value() > r@[j].run_id.value(),
    {
        let ids = self.matching_ids(query);
        let mut r: Vec<CachedRunProjection> = Vec::new();
        let mut j: usize = 0;
        while j < ids.len()
            invariant
                self.wf(),
                j <= ids@.len(),
                r@.len() == j,
                descending(ids@),
                forall|id: u128|
                    #[trigger] ids@.contains(id) <==> (self.entry_of(id) matches Some(e) && matches_query(*query, e)),
                forall|t: int|
                    0 <= t < j ==> (#[trigger] r@[t]).run_id.value() == ids@[t] && (self.entry_of(ids@[t]) matches Some(e)
                        && same_entry(r@[t], e)),
            decreases ids@.len() - j,
        {
            let id = ids[j];
            assert(ids@.contains(id));
            let found = self.find_entry(id);
            proof {
                if found is None {
                    lemma_entry_in_absent(self.entries@, id);
                }
            }
            let i = found.unwrap();
            proof {
                lemma_entry_in_at(self.entries@, i as int);
            }
            r.push(self.entries[i].duplicate());
            j = j + 1;
        }
        proof {
            assert forall|i: int| 0 <= i < r@.len() implies (self.entry_of((#[trigger] r@[i]).run_id.value()) matches Some(e)
                && same_entry(r@[i], e) && matches_query(*query, e)) by {
                assert(ids@.contains(ids@[i]));
            }
            assert forall|id: u128|
                (#[trigger] self.entry_of(id) matches Some(e) && matches_query(*query, e)) implies exists|i: int|
                    0 <= i < r@.len() && (#[trigger] r@[i]).run_id.value() == id by {
                assert(ids@.contains(id));
                let k = choose|k: int| 0 <= k < ids@.len() && ids@[k] == id;
                assert(r@[k].run_id.value() == id);
            }
            assert forall|a: int, b: int|
                0 <= a < b < r@.len() implies ulid_timestamp_ms((#[trigger] r@[a]).run_id.value()) >= ulid_timestamp_ms(
                    (#[trigger] r@[b]).run_id.value(),
                ) && r@[a].run_id.value() > r@[b].run_id.value() by {
                lemma_timestamp_monotone(r@[a].run_id.value(), r@[b].run_id.value());
            }
        }
        r
    }
}

impl RunProjectionCacheState {
    /// Folds one event of run `run_id` into its cached projection. A run not
    /// yet cached starts from its first event (sequence 1), under the parent
    /// named in its spec; an event the entry already holds is ignored; one
    /// that skips ahead, or that the projection refuses, leaves the cache as
    /// it was.
    pub fn apply_event(&mut self, run_id: &RunId, parent_id: Option<RunId>, event: &RunEvent) -> (r: Result<(), CacheError>)
        requires
            old(self).wf(),
        ensures
            final(self).wf(),
            forall|x: u128|
                x != run_id.value() ==> #[trigger] final(self).entry_of(x) == old(self).entry_of(x),
            match old(self).entry_of(run_id.value()) {
                None => if event.seq == 1 && !event_ok(None, event.body) {
                    &&& r matches Err(CacheError::Refused(t)) && error_is(t, None, event.body)
                    &&& final(self).entry_of(run_id.value()) is None
                } else if event.seq == 1 {
                    &&& r is Ok
                    &&& final(self).entry_of(run_id.value()) matches Some(n)
                    &&& n.run_id == *run_id
                    &&& n.parent_id == parent_id
                    &&& n.last_seq == 1
                    &&& exists|f: RunProjection| is_fresh(f) && applied(f, *event, n.projection)
                } else {
                    &&& r == Err::<(), CacheError>(CacheError::CannotInitialize { event_seq: event.seq })
                    &&& final(self).entry_of(run_id.value()) is None
                },
                Some(pe) => if event.seq <= pe.last_seq {
                    r is Ok && final(self).entry_of(run_id.value()) == Some(pe)
                } else if event.seq != pe.last_seq + 1 {
                    &&& r == Err::<(), CacheError>(
                        CacheError::SequenceGap { last_seq: pe.last_seq, event_seq: event.seq },
                    )
                    &&& final(self).entry_of(run_id.value()) == Some(pe)
                } else if !event_ok(pe.projection.status, event.body) {
                    &&& r matches Err(CacheError::Refused(t)) && error_is(t, pe.projection.status, event.body)
                    &&& final(self).entry_of(run_id.value()) == Some(pe)
                } else {
                    &&& r is Ok
                    &&& final(self).entry_of(run_id.value()) matches Some(n)
                    &&& n.run_id == pe.run_id
                    &&& n.parent_id == pe.parent_id
                    &&& n.last_seq == event.seq
                    &&& applied(pe.projection, *event, n.projection)
                },
            },
    {
        let ghost id = run_id.value();
        match self.find_entry(run_id.as_u128()) {
            None => {
                proof {
                    lemma_entry_in_absent(self.entries@, id);
                }
                if event.seq == 1 {
                    let mut projection = RunProjection::new();
                    let ghost fresh = projection;
                    match projection.apply_event(event) {
                        Ok(()) => {},
                        Err(t) => {
                            return Err(CacheError::Refused(t));
                        },
                    }
                    let entry = CachedRunProjection {
                        run_id: *run_id,
                        parent_id,
                        projection,
                        last_seq: event.seq,
                    };
                    self.insert(entry);
                    assert(is_fresh(fresh) && applied(fresh, *event, entry.projection));
                    Ok(())
                } else {
                    Err(CacheError::CannotInitialize { event_seq: event.seq })
                }
            },
            Some(i) => {
                proof {
                    lemma_entry_in_at(self.entries@, i as int);
                }
                let last = self.entries[i].last_seq;
                if event.seq <= last {
                    return Ok(());
                }
                if event.seq != last + 1 {
                    return Err(CacheError::SequenceGap { last_seq: last, event_seq: event.seq });
                }
                let ghost pe = self.entries@[i as int];
                let mut projection = self.entries[i].projection.duplicate();
                let ghost copy = projection;
                proof {
                    lemma_unique_by_views(copy.pending_interviews@, pe.projection.pending_interviews@);
                }
                match projection.apply_event(event) {
                    Ok(()) => {
                        proof {
                            lemma_applied_same_contents(copy, pe.projection, *event, projection);
                        }
                        let entry = CachedRunProjection {
                            run_id: self.entries[i].run_id,
                            parent_id: self.entries[i].parent_id,
                            projection,
                            last_seq: event.seq,
                        };
                        self.insert(entry);
                        Ok(())
                    },
                    Err(t) => Err(CacheError::Refused(t)),
                }
            },
        }
    }
}

} // verus!
