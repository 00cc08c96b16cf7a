//! The reference-tracked registry of GPU objects. Releasing a handle never
//! destroys its resource at once: a sweep destroys an entry only after its
//! reference count has reached zero and its age has passed the number of
//! frames that may still be in flight.

use vstd::prelude::*;

verus! {

/// A counted reference to a registered resource. Handles stay valid as
/// names after destruction; every operation on a stale handle reports it.
#[derive(Debug, Clone, Copy, PartialEq, Eq, Structural)]
pub struct ResourceHandle {
    pub id: u64,
}

/// One tracked resource: a unique registration id, the opaque resource
/// value, the outstanding reference count, and the sweeps survived since
/// registration.
#[derive(Debug, Clone, Copy, PartialEq, Eq, Structural)]
pub struct ResourceEntry {
    pub id: u64,
    pub resource: u64,
    pub refcount: u64,
    pub age: u64,
}

/// Counts reported for observability.
#[derive(Debug, Clone, Copy, PartialEq, Eq, Structural)]
pub struct ResourceSnapshot {
    pub total: usize,
    pub pending: usize,
    pub live: usize,
}

/// An age one sweep later, saturating at the counter's top.
pub open spec fn spec_bump_age(a: u64) -> u64 {
    if a < u64::MAX {
        (a + 1) as u64
    } else {
        a
    }
}

/// The entry one sweep later.
pub open spec fn spec_aged(e: ResourceEntry) -> ResourceEntry {
    ResourceEntry { id: e.id, resource: e.resource, refcount: e.refcount, age: spec_bump_age(e.age) }
}

/// A sweep with threshold `max_age` keeps an entry that is still referenced
/// or whose new age has not passed the threshold.
pub open spec fn spec_keeps(e: ResourceEntry, max_age: int) -> bool {
    e.refcount > 0 || spec_bump_age(e.age) <= max_age
}

/// The entries surviving one sweep, each one sweep older, in order.
pub open spec fn spec_survivors(s: Seq<ResourceEntry>, max_age: int) -> Seq<ResourceEntry>
    decreases s.len(),
{
    if s.len() == 0 {
        Seq::empty()
    } else {
        let prefix = spec_survivors(s.drop_last(), max_age);
        if spec_keeps(s.last(), max_age) {
            prefix.push(spec_aged(s.last()))
        } else {
            prefix
        }
    }
}

/// The entries one sweep destroys, in order, at the age they died with.
pub open spec fn spec_reclaimed(s: Seq<ResourceEntry>, max_age: int) -> Seq<ResourceEntry>
    decreases s.len(),
{
    if s.len() == 0 {
        Seq::empty()
    } else {
        let prefix = spec_reclaimed(s.drop_last(), max_age);
        if spec_keeps(s.last(), max_age) {
            prefix
        } else {
            prefix.push(spec_aged(s.last()))
        }
    }
}

/// The resource values of a run of entries, in order.
pub open spec fn spec_resources_of(s: Seq<ResourceEntry>) -> Seq<u64> {
    s.map_values(|e: ResourceEntry| e.resource)
}

/// Some entry carries this registration id.
pub open spec fn spec_contains_id(s: Seq<ResourceEntry>, id: u64) -> bool {
    exists|i: int| 0 <= i < s.len() && s[i].id == id
}

/// An index of the entry carrying this id.
pub open spec fn spec_index_of(s: Seq<ResourceEntry>, id: u64) -> int {
    choose|i: int| 0 <= i < s.len() && s[i].id == id
}

/// The entry carrying this id.
pub open spec fn spec_entry_of(s: Seq<ResourceEntry>, id: u64) -> ResourceEntry {
    s[spec_index_of(s, id)]
}

/// No two entries share a registration id.
pub open spec fn spec_unique_ids(s: Seq<ResourceEntry>) -> bool {
    forall|i: int, j: int| 0 <= i < j < s.len() ==> s[i].id != s[j].id
}

/// Registration ids strictly increase along the run.
pub open spec fn spec_sorted_ids(s: Seq<ResourceEntry>) -> bool {
    forall|i: int, j: int| 0 <= i < j < s.len() ==> s[i].id < s[j].id
}

/// How many entries carry this id.
pub open spec fn spec_count_id(s: Seq<ResourceEntry>, id: u64) -> nat
    decreases s.len(),
{
    if s.len() == 0 {
        0
    } else {
        spec_count_id(s.drop_last(), id) + if s.last().id == id {
            1nat
        } else {
            0nat
        }
    }
}

/// How many entries have no outstanding reference.
pub open spec fn spec_pending_count(s: Seq<ResourceEntry>) -> nat
    decreases s.len(),
{
    if s.len() == 0 {
        0
    } else {
        spec_pending_count(s.drop_last()) + if s.last().refcount == 0 {
            1nat
        } else {
            0nat
        }
    }
}

/// The registry. Entries are kept in registration order; ids are assigned
/// from a counter that never repeats, so a destroyed entry's handle can
/// never reach another entry.
#[derive(Debug)]
pub struct ResourceManager {
    entries: Vec<ResourceEntry>,
    next_id: u64,
}

impl View for ResourceManager {
    type V = Seq<ResourceEntry>;

    closed spec fn view(&self) -> Seq<ResourceEntry> {
        self.entries@
    }
}

impl ResourceManager {
    /// How many registration ids have been handed out.
    pub closed spec fn spec_ids_used(self) -> int {
        self.next_id as int
    }

    /// Entries are sorted by id and every id is below the counter.
    pub closed spec fn wf(self) -> bool {
        &&& spec_sorted_ids(self.entries@)
        &&& forall|i: int| 0 <= i < self.entries@.len() ==> self.entries@[i].id < self.next_id
    }

    /// An empty registry.
    pub fn new() -> (m: ResourceManager)
        ensures
            m.wf(),
            m@ == Seq::<ResourceEntry>::empty(),
            m.spec_ids_used() == 0,
    {
        ResourceManager { entries: Vec::new(), next_id: 0 }
    }

    /// How many registration ids have been handed out.
    pub fn ids_used(&self) -> (n: u64)
        ensures
            n == self.spec_ids_used(),
    {
        self.next_id
    }

    /// Takes shared ownership of a resource: a fresh entry with reference
    /// count one and age zero, under an id never used before.
    pub fn register(&mut self, resource: u64) -> (h: ResourceHandle)
        requires
            old(self).wf(),
            old(self).spec_ids_used() < u64::MAX,
        ensures
            final(self).wf(),
            h.id == old(self).spec_ids_used(),
            !spec_contains_id(old(self)@, h.id),
            final(self)@ == old(self)@.push(
                (ResourceEntry { id: h.id, resource, refcount: 1, age: 0 }),
            ),
            final(self).spec_ids_used() == old(self).spec_ids_used() + 1,
            spec_unique_ids(final(self)@),
    {
        let id = self.next_id;
        let entry = ResourceEntry { id, resource, refcount: 1, age: 0 };
        self.entries.push(entry);
        self.next_id = self.next_id + 1;
        proof {
            lemma_sorted_implies_unique(self.entries@);
        }
        ResourceHandle { id }
    }

    /// An index of the entry with this id, when one exists.
    fn index_of(&self, id: u64) -> (r: Option<usize>)
        ensures
            match r {
                Some(i) => i < self@.len() && self@[i as int].id == id,
                None => !spec_contains_id(self@, id),
            },
    {
        let mut i: usize = 0;
        while i < self.entries.len()
            invariant
                i <= self@.len(),
                forall|j: int| 0 <= j < i ==> self@[j].id != id,
            decreases self@.len() - i,
        {
            if self.entries[i].id == id {
                return Some(i);
            }
            i = i + 1;
        }
        None
    }

    /// Increments the reference count behind a handle. Reports a stale
    /// handle, or a count at its top, by returning nothing.
    pub fn clone_handle(&mut self, h: ResourceHandle) -> (r: Option<ResourceHandle>)
        requires
            old(self).wf(),
        ensures
            final(self).wf(),
            final(self).spec_ids_used() == old(self).spec_ids_used(),
            final(self)@.len() == old(self)@.len(),
            match r {
                Some(h2) => {
                    &&& h2.id == h.id
                    &&& spec_contains_id(old(self)@, h.id)
                    &&& spec_entry_of(old(self)@, h.id).refcount < u64::MAX
                    &&& forall|j: int|
                        0 <= j < old(self)@.len() ==> final(self)@[j] == (if old(self)@[j].id
                            == h.id {
                            ResourceEntry {
                                id: old(self)@[j].id,
                                resource: old(self)@[j].resource,
                                refcount: (old(self)@[j].refcount + 1) as u64,
                                age: old(self)@[j].age,
                            }
                        } else {
                            old(self)@[j]
                        })
                },
                None => final(self)@ == old(self)@ && (!spec_contains_id(old(self)@, h.id)
                    || spec_entry_of(old(self)@, h.id).refcount == u64::MAX),
            },
    {
        let idx = match self.index_of(h.id) {
            Some(i) => i,
            None => {
                return None;
            },
        };
        let e = self.entries[idx];
        if e.refcount == u64::MAX {
            proof {
                lemma_unique_entry_of(self@, h.id, idx as int);
            }
            return None;
        }
        let updated = ResourceEntry {
            id: e.id,
            resource: e.resource,
            refcount: e.refcount + 1,
            age: e.age,
        };
        self.entries.set(idx, updated);
        proof {
            lemma_sorted_implies_unique(old(self)@);
            lemma_unique_entry_of(old(self)@, h.id, idx as int);
            assert forall|j: int| 0 <= j < old(self)@.len() && j != idx ==> old(self)@[j].id
                != h.id by {}
        }
        Some(ResourceHandle { id: h.id })
    }

    /// Decrements the reference count behind a handle; at zero the entry
    /// becomes eligible for destruction on a later sweep, not at once. A
    /// release is a use, so the entry's age restarts: the deferral window
    /// is counted from the last release, when frames referencing the
    /// resource may still be in flight. Reports a stale handle, or a count
    /// already at zero, by returning false and changing nothing.
    pub fn release(&mut self, h: ResourceHandle) -> (released: bool)
        requires
            old(self).wf(),
        ensures
            final(self).wf(),
            final(self).spec_ids_used() == old(self).spec_ids_used(),
            final(self)@.len() == old(self)@.len(),
            released ==> {
                &&& spec_contains_id(old(self)@, h.id)
                &&& spec_entry_of(old(self)@, h.id).refcount > 0
                &&& forall|j: int|
                    0 <= j < old(self)@.len() ==> final(self)@[j] == (if old(self)@[j].id == h.id {
                        ResourceEntry {
                            id: old(self)@[j].id,
                            resource: old(self)@[j].resource,
                            refcount: (old(self)@[j].refcount - 1) as u64,
                            age: 0,
                        }
                    } else {
                        old(self)@[j]
                    })
            },
            !released ==> final(self)@ == old(self)@ && (!spec_contains_id(old(self)@, h.id)
                || spec_entry_of(old(self)@, h.id).refcount == 0),
    {
        let idx = match self.index_of(h.id) {
            Some(i) => i,
            None => {
                return false;
            },
        };
        let e = self.entries[idx];
        if e.refcount == 0 {
            proof {
                lemma_unique_entry_of(self@, h.id, idx as int);
            }
            return false;
        }
        let updated = ResourceEntry { id: e.id, resource: e.resource, refcount: e.refcount - 1, age: 0 };
        self.entries.set(idx, updated);
        proof {
            lemma_sorted_implies_unique(old(self)@);
            lemma_unique_entry_of(old(self)@, h.id, idx as int);
        }
        true
    }

    /// One sweep: every entry ages by one tick, then every entry with no
    /// outstanding reference whose age has passed `max_age` is removed. The
    /// resource values of the removed entries are returned for the caller
    /// to destroy; `max_age` must be at least the number of frames that may
    /// be in flight for that destruction to be safe.
    pub fn cleanup(&mut self, max_age: usize) -> (destroyed: Vec<u64>)
        requires
            old(self).wf(),
        ensures
            final(self).wf(),
            final(self).spec_ids_used() == old(self).spec_ids_used(),
            final(self)@ == spec_survivors(old(self)@, max_age as int),
            destroyed@ == spec_resources_of(spec_reclaimed(old(self)@, max_age as int)),
            spec_unique_ids(final(self)@),
    {
        let ghost s = self.entries@;
        let mut kept: Vec<ResourceEntry> = Vec::new();
        let mut out: Vec<u64> = Vec::new();
        let n = self.entries.len();
        let mut i: usize = 0;
        while i < n
            invariant
                i <= n,
                n == s.len(),
                self.entries@ == s,
                kept@ == spec_survivors(s.take(i as int), max_age as int),
                out@ == spec_resources_of(spec_reclaimed(s.take(i as int), max_age as int)),
            decreases n - i,
        {
            let e = self.entries[i];
            let bumped: u64 = if e.age < u64::MAX {
                e.age + 1
            } else {
                e.age
            };
            let aged = ResourceEntry { id: e.id, resource: e.resource, refcount: e.refcount, age: bumped };
            proof {
                assert(s.take(i + 1).drop_last() =~= s.take(i as int));
                assert(s.take(i + 1).last() == s[i as int]);
            }
            if e.refcount > 0 || bumped <= max_age as u64 {
                kept.push(aged);
            } else {
                out.push(e.resource);
                proof {
                    assert(out@ =~= spec_resources_of(
                        spec_reclaimed(s.take(i + 1), max_age as int),
                    ));
                }
            }
            i = i + 1;
        }
        proof {
            assert(s.take(n as int) =~= s);
            lemma_survivors_structure(s, max_age as int);
            lemma_sorted_implies_unique(spec_survivors(s, max_age as int));
            assert forall|j: int|
                0 <= j < spec_survivors(s, max_age as int).len() implies #[trigger] spec_survivors(
                s,
                max_age as int,
            )[j].id < self.next_id by {
                let l = choose|l: int|
                    0 <= l < s.len() && spec_survivors(s, max_age as int)[j] == spec_aged(s[l]);
            }
        }
        self.entries = kept;
        out
    }

    /// Counts for observability: total entries, entries pending destruction
    /// (no outstanding reference), and live entries. No side effects.
    pub fn info(&self) -> (snap: ResourceSnapshot)
        ensures
            snap.total == self@.len(),
            snap.pending == spec_pending_count(self@),
            snap.live == self@.len() - spec_pending_count(self@),
    {
        let ghost s = self.entries@;
        let total = self.entries.len();
        let mut pending: usize = 0;
        let mut i: usize = 0;
        while i < total
            invariant
                i <= total,
                total == s.len(),
                self.entries@ == s,
                pending == spec_pending_count(s.take(i as int)),
                pending <= i,
            decreases total - i,
        {
            proof {
                assert(s.take(i + 1).drop_last() =~= s.take(i as int));
                assert(s.take(i + 1).last() == s[i as int]);
            }
            if self.entries[i].refcount == 0 {
                pending = pending + 1;
            }
            i = i + 1;
        }
        proof {
            assert(s.take(total as int) =~= s);
        }
        ResourceSnapshot { total, pending, live: total - pending }
    }
}

/// Strictly increasing ids leave no room for a repeat.
proof fn lemma_sorted_implies_unique(s: Seq<ResourceEntry>)
    requires
        spec_sorted_ids(s),
    ensures
        spec_unique_ids(s),
{
}

/// With unique ids, the entry found for an id is the entry at any index
/// that carries it.
proof fn lemma_unique_entry_of(s: Seq<ResourceEntry>, id: u64, i: int)
    requires
        spec_unique_ids(s),
        0 <= i < s.len(),
        s[i].id == id,
    ensures
        spec_contains_id(s, id),
        spec_index_of(s, id) == i,
        spec_entry_of(s, id) == s[i],
{
    assert(spec_contains_id(s, id));
    let j = spec_index_of(s, id);
    assert(0 <= j < s.len() && s[j].id == id);
}

/// Every survivor of a sweep is an aged entry of the input, and a sweep of
/// an id-sorted run stays id-sorted.
proof fn lemma_survivors_structure(s: Seq<ResourceEntry>, max_age: int)
    ensures
        forall|j: int|
            0 <= j < spec_survivors(s, max_age).len() ==> exists|l: int|
                0 <= l < s.len() && #[trigger] spec_survivors(s, max_age)[j] == spec_aged(s[l]),
        spec_sorted_ids(s) ==> spec_sorted_ids(spec_survivors(s, max_age)),
    decreases s.len(),
{
    if s.len() > 0 {
        let butlast = s.drop_last();
        lemma_survivors_structure(butlast, max_age);
        assert(forall|l: int| 0 <= l < butlast.len() ==> butlast[l] == s[l]);
        let sv = spec_survivors(s, max_age);
        let svb = spec_survivors(butlast, max_age);
        assert forall|j: int| 0 <= j < sv.len() implies exists|l: int|
            0 <= l < s.len() && #[trigger] sv[j] == spec_aged(s[l]) by {
            if j < svb.len() {
                let l = choose|l: int| 0 <= l < butlast.len() && svb[j] == spec_aged(butlast[l]);
                assert(sv[j] == spec_aged(s[l]));
            } else {
                assert(spec_keeps(s.last(), max_age) && sv[j] == spec_aged(s.last()));
                assert(sv[j] == spec_aged(s[s.len() - 1]));
            }
        }
        if spec_sorted_ids(s) {
            assert(spec_sorted_ids(butlast));
            assert forall|a: int, b: int| 0 <= a < b < sv.len() implies sv[a].id < sv[b].id by {
                let la = choose|l: int| 0 <= l < s.len() && sv[a] == spec_aged(s[l]);
                if b < svb.len() {
                } else if spec_keeps(s.last(), max_age) && b == svb.len() {
                    let laa = choose|l: int|
                        0 <= l < butlast.len() && svb[a] == spec_aged(butlast[l]);
                    assert(sv[a].id == butlast[laa].id);
                    assert(sv[b].id == s.last().id);
                    assert(butlast[laa].id == s[laa].id);
                    assert(s[laa].id < s[s.len() - 1].id);
                }
            }
        }
    }
}

/// Counting an id distributes over concatenation.
proof fn lemma_count_id_concat(a: Seq<ResourceEntry>, b: Seq<ResourceEntry>, id: u64)
    ensures
        spec_count_id(a + b, id) == spec_count_id(a, id) + spec_count_id(b, id),
    decreases b.len(),
{
    if b.len() == 0 {
        assert(a + b =~= a);
    } else {
        assert((a + b).drop_last() =~= a + b.drop_last());
        assert((a + b).last() == b.last());
        lemma_count_id_concat(a, b.drop_last(), id);
    }
}

/// Law: one sweep tracks each id exactly. A kept entry survives aged by one
/// tick and is not destroyed; a dropped entry leaves and is destroyed
/// exactly once; an absent id stays absent and is not destroyed. Unique ids
/// stay unique.
pub proof fn lemma_sweep_tracks_entry(s: Seq<ResourceEntry>, max_age: int, id: u64)
    requires
        spec_unique_ids(s),
    ensures
        spec_unique_ids(spec_survivors(s, max_age)),
        spec_contains_id(s, id) && spec_keeps(spec_entry_of(s, id), max_age) ==> {
            &&& spec_contains_id(spec_survivors(s, max_age), id)
            &&& spec_entry_of(spec_survivors(s, max_age), id) == spec_aged(spec_entry_of(s, id))
            &&& spec_count_id(spec_reclaimed(s, max_age), id) == 0
        },
        spec_contains_id(s, id) && !spec_keeps(spec_entry_of(s, id), max_age) ==> {
            &&& !spec_contains_id(spec_survivors(s, max_age), id)
            &&& spec_count_id(spec_reclaimed(s, max_age), id) == 1
        },
        !spec_contains_id(s, id) ==> !spec_contains_id(spec_survivors(s, max_age), id)
            && spec_count_id(spec_reclaimed(s, max_age), id) == 0,
    decreases s.len(),
{
    if s.len() == 0 {
        assert(!spec_contains_id(s, id));
        assert(!spec_contains_id(spec_survivors(s, max_age), id));
    } else {
        let butlast = s.drop_last();
        let e = s.last();
        assert(forall|l: int| 0 <= l < butlast.len() ==> butlast[l] == s[l]);
        assert(spec_unique_ids(butlast));
        lemma_sweep_tracks_entry(butlast, max_age, id);
        lemma_sweep_tracks_entry(butlast, max_age, e.id);
        assert(!spec_contains_id(butlast, e.id)) by {
            if spec_contains_id(butlast, e.id) {
                let l = spec_index_of(butlast, e.id);
                assert(0 <= l < butlast.len() && butlast[l].id == e.id);
                assert(s[l].id == s[s.len() - 1].id);
            }
        }
        let sv = spec_survivors(s, max_age);
        let svb = spec_survivors(butlast, max_age);
        let rc = spec_reclaimed(s, max_age);
        let rcb = spec_reclaimed(butlast, max_age);
        // Unique ids survive: the pushed entry's id is absent from the rest.
        assert(spec_unique_ids(sv)) by {
            if spec_keeps(e, max_age) {
                assert(!spec_contains_id(svb, e.id));
                assert(sv == svb.push(spec_aged(e)));
                assert forall|a: int, b: int| 0 <= a < b < sv.len() implies sv[a].id
                    != sv[b].id by {
                    if b < svb.len() {
                        assert(sv[a] == svb[a] && sv[b] == svb[b]);
                    } else {
                        assert(sv[b] == spec_aged(e));
                        assert(sv[a] == svb[a]);
                        assert(spec_contains_id(svb, svb[a].id));
                    }
                }
            }
        }
        if spec_contains_id(s, id) {
            if e.id == id {
                lemma_unique_entry_of(s, id, s.len() - 1);
                assert(spec_entry_of(s, id) == e);
                if spec_keeps(e, max_age) {
                    assert(sv == svb.push(spec_aged(e)));
                    assert(sv[sv.len() - 1] == spec_aged(e));
                    assert(spec_aged(e).id == id);
                    lemma_unique_entry_of(sv, id, sv.len() - 1);
                    assert(rc == rcb);
                    assert(spec_count_id(rcb, id) == 0);
                } else {
                    assert(rc == rcb.push(spec_aged(e)));
                    assert(rc.drop_last() =~= rcb);
                    assert(spec_count_id(rc, id) == spec_count_id(rcb, id) + 1);
                    assert(spec_count_id(rcb, id) == 0);
                    assert(sv == svb);
                    assert(!spec_contains_id(svb, id));
                }
            } else {
                assert(spec_contains_id(butlast, id)) by {
                    let l = spec_index_of(s, id);
                    assert(0 <= l < s.len() && s[l].id == id);
                    assert(l != s.len() - 1);
                    assert(butlast[l].id == id);
                }
                lemma_unique_entry_of(butlast, id, spec_index_of(butlast, id));
                assert(spec_entry_of(s, id) == spec_entry_of(butlast, id)) by {
                    let l = spec_index_of(butlast, id);
                    assert(butlast[l] == s[l]);
                    lemma_unique_entry_of(s, id, l);
                }
                let eb = spec_entry_of(butlast, id);
                if spec_keeps(eb, max_age) {
                    assert(spec_contains_id(svb, id));
                    assert(spec_entry_of(svb, id) == spec_aged(eb));
                    if spec_keeps(e, max_age) {
                        assert(sv == svb.push(spec_aged(e)));
                        let l = spec_index_of(svb, id);
                        assert(0 <= l < svb.len() && svb[l].id == id);
                        assert(sv[l] == svb[l]);
                        lemma_unique_entry_of(sv, id, l);
                        assert(rc == rcb);
                    } else {
                        assert(sv == svb);
                        assert(rc == rcb.push(spec_aged(e)));
                        assert(rc.drop_last() =~= rcb);
                        assert(spec_aged(e).id != id);
                        assert(spec_count_id(rc, id) == spec_count_id(rcb, id));
                    }
                } else {
                    assert(!spec_contains_id(svb, id));
                    assert(spec_count_id(rcb, id) == 1);
                    if spec_keeps(e, max_age) {
                        assert(sv == svb.push(spec_aged(e)));
                        assert(!spec_contains_id(sv, id)) by {
                            if spec_contains_id(sv, id) {
                                let l = spec_index_of(sv, id);
                                assert(0 <= l < sv.len() && sv[l].id == id);
                                if l < svb.len() {
                                    assert(svb[l].id == id);
                                } else {
                                    assert(sv[l] == spec_aged(e));
                                }
                            }
                        }
                        assert(rc == rcb);
                    } else {
                        assert(sv == svb);
                        assert(rc == rcb.push(spec_aged(e)));
                        assert(rc.drop_last() =~= rcb);
                        assert(spec_aged(e).id != id);
                        assert(spec_count_id(rc, id) == spec_count_id(rcb, id));
                    }
                }
            }
        } else {
            assert(!spec_contains_id(butlast, id)) by {
                if spec_contains_id(butlast, id) {
                    let l = spec_index_of(butlast, id);
                    assert(s[l].id == id);
                }
            }
            assert(e.id != id);
            assert(!spec_contains_id(sv, id)) by {
                if spec_contains_id(sv, id) {
                    let l = spec_index_of(sv, id);
                    assert(0 <= l < sv.len() && sv[l].id == id);
                    if spec_keeps(e, max_age) {
                        assert(sv == svb.push(spec_aged(e)));
                        if l < svb.len() {
                            assert(svb[l].id == id);
                        } else {
                            assert(sv[l] == spec_aged(e));
                        }
                    } else {
                        assert(sv == svb);
                        assert(svb[l].id == id);
                    }
                }
            }
            if spec_keeps(e, max_age) {
                assert(spec_count_id(rc, id) == spec_count_id(rcb, id));
            } else {
                assert(rc == rcb.push(spec_aged(e)));
                assert(rc.drop_last() =~= rcb);
                assert(spec_aged(e).id != id);
                assert(spec_count_id(rc, id) == spec_count_id(rcb, id));
            }
        }
    }
}

/// Law: an entry with outstanding references is never destroyed by a sweep,
/// whatever its age; it survives, one tick older.
pub proof fn lemma_live_entry_never_destroyed(s: Seq<ResourceEntry>, max_age: int, id: u64)
    requires
        spec_unique_ids(s),
        spec_contains_id(s, id),
        spec_entry_of(s, id).refcount > 0,
    ensures
        spec_contains_id(spec_survivors(s, max_age), id),
        spec_entry_of(spec_survivors(s, max_age), id) == spec_aged(spec_entry_of(s, id)),
        spec_count_id(spec_reclaimed(s, max_age), id) == 0,
{
    lemma_sweep_tracks_entry(s, max_age, id);
}

/// The registry's contents after `n` sweeps with threshold `max_age`.
pub open spec fn spec_sweep_n(s: Seq<ResourceEntry>, max_age: int, n: nat) -> Seq<ResourceEntry>
    decreases n,
{
    if n == 0 {
        s
    } else {
        spec_survivors(spec_sweep_n(s, max_age, (n - 1) as nat), max_age)
    }
}

/// Every entry destroyed during `n` sweeps, in order of destruction.
pub open spec fn spec_sweep_reclaims(s: Seq<ResourceEntry>, max_age: int, n: nat) -> Seq<
    ResourceEntry,
>
    decreases n,
{
    if n == 0 {
        Seq::empty()
    } else {
        spec_sweep_reclaims(s, max_age, (n - 1) as nat) + spec_reclaimed(
            spec_sweep_n(s, max_age, (n - 1) as nat),
            max_age,
        )
    }
}

/// Law: deferred destruction. An entry whose last reference was just
/// released (count zero, age zero) is still present, merely older, after up
/// to `max_age` sweeps and has not been destroyed; once more than `max_age`
/// sweeps have run, it is gone and was destroyed exactly once.
pub proof fn lemma_deferred_destruction(s: Seq<ResourceEntry>, max_age: int, id: u64, n: nat)
    requires
        spec_unique_ids(s),
        spec_contains_id(s, id),
        spec_entry_of(s, id).refcount == 0,
        spec_entry_of(s, id).age == 0,
        0 <= max_age < u64::MAX,
    ensures
        spec_unique_ids(spec_sweep_n(s, max_age, n)),
        n <= max_age ==> {
            &&& spec_contains_id(spec_sweep_n(s, max_age, n), id)
            &&& spec_entry_of(spec_sweep_n(s, max_age, n), id) == (ResourceEntry {
                id,
                resource: spec_entry_of(s, id).resource,
                refcount: 0,
                age: n as u64,
            })
            &&& spec_count_id(spec_sweep_reclaims(s, max_age, n), id) == 0
        },
        n > max_age ==> {
            &&& !spec_contains_id(spec_sweep_n(s, max_age, n), id)
            &&& spec_count_id(spec_sweep_reclaims(s, max_age, n), id) == 1
        },
    decreases n,
{
    if n == 0 {
        assert(spec_entry_of(s, id).id == id) by {
            let l = spec_index_of(s, id);
            assert(0 <= l < s.len() && s[l].id == id);
        }
        assert(spec_entry_of(s, id) == (ResourceEntry {
            id,
            resource: spec_entry_of(s, id).resource,
            refcount: 0,
            age: 0u64,
        }));
    } else {
        let m = (n - 1) as nat;
        lemma_deferred_destruction(s, max_age, id, m);
        let prev = spec_sweep_n(s, max_age, m);
        lemma_sweep_tracks_entry(prev, max_age, id);
        lemma_count_id_concat(
            spec_sweep_reclaims(s, max_age, m),
            spec_reclaimed(prev, max_age),
            id,
        );
        if m <= max_age {
            let e = spec_entry_of(prev, id);
            assert(e.age == m as u64 && e.refcount == 0);
            if n <= max_age {
                assert(spec_bump_age(e.age) == n);
                assert(spec_keeps(e, max_age));
                assert(spec_aged(e) == (ResourceEntry {
                    id,
                    resource: e.resource,
                    refcount: 0,
                    age: n as u64,
                }));
            } else {
                assert(spec_bump_age(e.age) == n > max_age);
                assert(!spec_keeps(e, max_age));
            }
        } else {
            assert(!spec_contains_id(prev, id));
        }
    }
}

} // verus!
