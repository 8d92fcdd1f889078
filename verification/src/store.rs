//! The embedding store: an associative collection of stored entries keyed by
//! unique identifiers, kept in insertion order.
//!
//! Mutating and scanning operations take the store exclusively (`&mut self`,
//! or `&self` for the duration of a borrow), which serializes them; an
//! embedding application that shares one store across request handlers wraps
//! it in a mutual-exclusion guard.

use vstd::pervasive::VecAdditionalExecFns;
use vstd::prelude::*;

use crate::types::EmbeddingEntry;

verus! {

/// The first index at which `id` occurs in `s`, or -1 when it does not.
pub open spec fn find_id(s: Seq<(u128, EmbeddingEntry)>, id: u128) -> int
    decreases s.len(),
{
    if s.len() == 0 {
        -1
    } else if s[0].0 == id {
        0
    } else {
        let r = find_id(s.drop_first(), id);
        if r < 0 {
            -1
        } else {
            1 + r
        }
    }
}

/// Whether some entry in `s` is keyed by `id`.
pub open spec fn contains_id(s: Seq<(u128, EmbeddingEntry)>, id: u128) -> bool {
    find_id(s, id) >= 0
}

/// The entry keyed by `id`, when there is one.
pub open spec fn spec_get(s: Seq<(u128, EmbeddingEntry)>, id: u128) -> Option<EmbeddingEntry> {
    if contains_id(s, id) {
        Some(s[find_id(s, id)].1)
    } else {
        None
    }
}

/// `s` with `entry` stored under `id`: in place when `id` is already
/// present, appended otherwise.
pub open spec fn upsert(
    s: Seq<(u128, EmbeddingEntry)>,
    id: u128,
    entry: EmbeddingEntry,
) -> Seq<(u128, EmbeddingEntry)> {
    if contains_id(s, id) {
        s.update(find_id(s, id), (id, entry))
    } else {
        s.push((id, entry))
    }
}

/// `s` after storing each of `entries`, in order, under the matching
/// identifier of `ids`.
pub open spec fn insert_all(
    s: Seq<(u128, EmbeddingEntry)>,
    ids: Seq<u128>,
    entries: Seq<EmbeddingEntry>,
) -> Seq<(u128, EmbeddingEntry)>
    recommends
        ids.len() == entries.len(),
    decreases ids.len(),
{
    if ids.len() == 0 {
        s
    } else {
        upsert(insert_all(s, ids.drop_last(), entries.drop_last()), ids.last(), entries.last())
    }
}

/// `s` with the entry keyed by `id` taken out, other entries kept in order.
pub open spec fn remove_id(s: Seq<(u128, EmbeddingEntry)>, id: u128) -> Seq<
    (u128, EmbeddingEntry),
> {
    if contains_id(s, id) {
        s.remove(find_id(s, id))
    } else {
        s
    }
}

/// No two entries of `s` share an identifier.
pub open spec fn unique_ids(s: Seq<(u128, EmbeddingEntry)>) -> bool {
    forall|i: int, j: int| 0 <= i < j < s.len() ==> s[i].0 != s[j].0
}

/// What `find_id` points at: an occurrence of `id` behind positions free of
/// it, or nothing anywhere.
pub proof fn lemma_find_id_facts(s: Seq<(u128, EmbeddingEntry)>, id: u128)
    ensures
        contains_id(s, id) ==> find_id(s, id) < s.len() && s[find_id(s, id)].0 == id,
        !contains_id(s, id) ==> forall|j: int| 0 <= j < s.len() ==> s[j].0 != id,
    decreases s.len(),
{
    if s.len() > 0 && s[0].0 != id {
        lemma_find_id_facts(s.drop_first(), id);
        if !contains_id(s, id) {
            assert forall|j: int| 0 <= j < s.len() implies s[j].0 != id by {
                if j > 0 {
                    assert(s.drop_first()[j - 1] == s[j]);
                }
            }
        }
    }
}

/// A scan that stopped at the first occurrence of `id` found `find_id`.
proof fn lemma_find_id_agrees(s: Seq<(u128, EmbeddingEntry)>, id: u128, i: int)
    requires
        0 <= i <= s.len(),
        forall|j: int| 0 <= j < i ==> s[j].0 != id,
        i < s.len() ==> s[i].0 == id,
    ensures
        find_id(s, id) == if i < s.len() {
            i
        } else {
            -1
        },
    decreases s.len(),
{
    if s.len() > 0 && s[0].0 != id {
        assert forall|j: int| 0 <= j < i - 1 implies s.drop_first()[j].0 != id by {
            assert(s.drop_first()[j] == s[j + 1]);
        }
        lemma_find_id_agrees(s.drop_first(), id, i - 1);
    }
}

/// The in-memory store of embedding entries. It starts empty, owns its
/// entries exclusively, and spans the process; there is no persistence.
pub struct EmbeddingStore {
    entries: Vec<(u128, EmbeddingEntry)>,
}

impl View for EmbeddingStore {
    type V = Seq<(u128, EmbeddingEntry)>;

    /// The stored entries with their identifiers, in insertion order: the
    /// snapshot a scan observes.
    closed spec fn view(&self) -> Seq<(u128, EmbeddingEntry)> {
        self.entries@
    }
}

impl EmbeddingStore {
    #[verifier::type_invariant]
    spec fn well_formed(&self) -> bool {
        unique_ids(self.entries@)
    }

    /// An empty store.
    pub fn new() -> (r: Self)
        ensures
            r@ == Seq::<(u128, EmbeddingEntry)>::empty(),
    {
        Self { entries: Vec::new() }
    }

    /// How many entries are stored.
    pub fn len(&self) -> (r: usize)
        ensures
            r == self@.len(),
    {
        self.entries.len()
    }

    /// The identifier of the entry at position `i` of the snapshot.
    pub fn id_at(&self, i: usize) -> (r: u128)
        requires
            i < self@.len(),
        ensures
            r == self@[i as int].0,
    {
        self.entries[i].0
    }

    /// The entry at position `i` of the snapshot.
    pub fn entry_at(&self, i: usize) -> (r: &EmbeddingEntry)
        requires
            i < self@.len(),
        ensures
            *r == self@[i as int].1,
    {
        &self.entries[i].1
    }

    /// The position of `id` in `entries`, when present.
    fn find_index(entries: &Vec<(u128, EmbeddingEntry)>, id: u128) -> (r: Option<usize>)
        ensures
            r matches Some(i) ==> i < entries@.len() && find_id(entries@, id) == i,
            r is None ==> !contains_id(entries@, id),
    {
        let mut i: usize = 0;
        while i < entries.len() && entries[i].0 != id
            invariant
                0 <= i <= entries@.len(),
                forall|j: int| 0 <= j < i ==> entries@[j].0 != id,
            decreases entries@.len() - i,
        {
            i = i + 1;
        }
        proof {
            lemma_find_id_agrees(entries@, id, i as int);
        }
        if i < entries.len() {
            Some(i)
        } else {
            None
        }
    }

    /// Fetch the entry stored under `id`; absence is not an error.
    pub fn get(&self, id: u128) -> (r: Option<&EmbeddingEntry>)
        ensures
            match r {
                Some(e) => spec_get(self@, id) == Some(*e),
                None => spec_get(self@, id) is None,
            },
    {
        proof {
            lemma_find_id_facts(self@, id);
        }
        match Self::find_index(&self.entries, id) {
            Some(i) => Some(&self.entries[i].1),
            None => None,
        }
    }

    /// Store `entry` under `id`, replacing what `id` previously named.
    fn upsert_one(&mut self, id: u128, entry: EmbeddingEntry)
        ensures
            final(self)@ == upsert(old(self)@, id, entry),
    {
        proof {
            use_type_invariant(&*self);
            lemma_find_id_facts(self@, id);
        }
        let mut v: Vec<(u128, EmbeddingEntry)> = Vec::new();
        core::mem::swap(&mut v, &mut self.entries);
        match Self::find_index(&v, id) {
            Some(i) => {
                v.set(i, (id, entry));
            },
            None => {
                v.push((id, entry));
            },
        }
        self.entries = v;
    }

    /// Insert each of `entries` under a freshly generated identifier and
    /// return the generated identifiers in input order. The contract pins
    /// the new snapshot for whatever identifiers come back; that they never
    /// collide with ones in use is the generator's own concern.
    pub fn insert_many(&mut self, entries: Vec<EmbeddingEntry>) -> (r: Vec<u128>)
        ensures
            r@.len() == entries@.len(),
            final(self)@ == insert_all(old(self)@, r@, entries@),
    {
        let ghost all = entries@;
        let mut remaining = entries;
        let mut ids: Vec<u128> = Vec::new();
        let ghost mut done: int = 0;
        while remaining.len() > 0
            invariant
                0 <= done <= all.len(),
                ids@.len() == done,
                remaining@ == all.skip(done),
                self@ == insert_all(old(self)@, ids@, all.take(done)),
            decreases remaining@.len(),
        {
            let entry = remaining.remove(0);
            let ghost e = entry;
            let id = fresh_id();
            let ghost prev_ids = ids@;
            self.upsert_one(id, entry);
            ids.push(id);
            proof {
                done = done + 1;
                assert(ids@.drop_last() =~= prev_ids);
                assert(all.take(done).drop_last() =~= all.take(done - 1));
                assert(all.take(done).last() == e);
                assert(remaining@ =~= all.skip(done));
            }
        }
        proof {
            assert(all.take(done) =~= all);
        }
        ids
    }

    /// Remove the entry stored under `id`; a no-op when `id` is absent.
    pub fn delete(&mut self, id: u128)
        ensures
            final(self)@ == remove_id(old(self)@, id),
            !contains_id(final(self)@, id),
    {
        proof {
            use_type_invariant(&*self);
            lemma_find_id_facts(self@, id);
        }
        let mut v: Vec<(u128, EmbeddingEntry)> = Vec::new();
        core::mem::swap(&mut v, &mut self.entries);
        let ghost before = v@;
        match Self::find_index(&v, id) {
            Some(i) => {
                v.remove(i);
                proof {
                    assert forall|j: int| 0 <= j < v@.len() implies v@[j].0 != id by {
                        assert(v@[j] == if j < i { before[j] } else { before[j + 1] });
                    }
                    lemma_find_id_agrees(v@, id, v@.len() as int);
                }
            },
            None => {},
        }
        self.entries = v;
    }

    /// Remove every entry.
    pub fn delete_all(&mut self)
        ensures
            final(self)@ == Seq::<(u128, EmbeddingEntry)>::empty(),
    {
        self.entries = Vec::new();
    }

    /// A copy of the snapshot a scan observes: every stored entry with its
    /// identifier, in insertion order, each vector and payload reading the
    /// same as the stored one.
    pub fn snapshot_iter(&self) -> (r: Vec<(u128, EmbeddingEntry)>)
        ensures
            r@.len() == self@.len(),
            forall|i: int|
                0 <= i < self@.len() ==> r@[i].0 == self@[i].0 && r@[i].1.embeddings@
                    == self@[i].1.embeddings@ && r@[i].1.text@ == self@[i].1.text@,
    {
        let mut r: Vec<(u128, EmbeddingEntry)> = Vec::new();
        let mut i: usize = 0;
        while i < self.entries.len()
            invariant
                0 <= i <= self@.len(),
                self@ == self.entries@,
                r@.len() == i,
                forall|j: int|
                    0 <= j < i ==> r@[j].0 == self@[j].0 && r@[j].1.embeddings@
                        == self@[j].1.embeddings@ && r@[j].1.text@ == self@[j].1.text@,
            decreases self@.len() - i,
        {
            let p = &self.entries[i];
            r.push((p.0, p.1.duplicate()));
            i = i + 1;
        }
        r
    }
}

/// Relies on `uuid::Uuid::new_v4` for fresh identifiers, carried as the
/// 128-bit value of the UUID. Nothing is assumed of the value that comes
/// back: generation is random, and the store's contracts hold whatever
/// identifier is returned.
#[verifier::external_body]
fn fresh_id() -> u128 {
    uuid::Uuid::new_v4().as_u128()
}

} // verus!
