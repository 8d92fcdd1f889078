//! The bounded top-k selector: a fixed-capacity structure that ingests a
//! stream of scored candidates and retains only the k highest-scoring seen
//! so far.

use vstd::prelude::*;

use crate::types::Neighbour;

verus! {

/// `s` is ordered descending by similarity score.
pub open spec fn sorted_desc(s: Seq<Neighbour>) -> bool {
    forall|i: int, j: int| 0 <= i <= j < s.len() ==> s[i].similarity >= s[j].similarity
}

/// The position at which a new candidate enters a descending sequence: after
/// every element that scores at least as high, before the first that scores
/// strictly lower. Inserting there keeps an earlier-arrived candidate ahead
/// of a later-arrived one with an equal score.
pub open spec fn insert_pos(s: Seq<Neighbour>, n: Neighbour) -> int
    decreases s.len(),
{
    if s.len() == 0 {
        0
    } else if s[0].similarity >= n.similarity {
        1 + insert_pos(s.drop_first(), n)
    } else {
        0
    }
}

/// A descending sequence with `n` inserted at its position.
pub open spec fn insert_desc(s: Seq<Neighbour>, n: Neighbour) -> Seq<Neighbour> {
    s.insert(insert_pos(s, n), n)
}

/// What one push does to the retained candidates: insert while below
/// capacity; once full, evict the weakest only for a strictly greater score.
/// A tie with the weakest discards the newcomer, and a capacity of zero
/// retains nothing.
pub open spec fn push_spec(s: Seq<Neighbour>, k: nat, n: Neighbour) -> Seq<Neighbour> {
    if s.len() < k {
        insert_desc(s, n)
    } else if k > 0 && n.similarity > s.last().similarity {
        insert_desc(s.drop_last(), n)
    } else {
        s
    }
}

/// The candidates retained after pushing each element of `cands`, in order,
/// into an empty selector of capacity `k`.
pub open spec fn select_topk(cands: Seq<Neighbour>, k: nat) -> Seq<Neighbour>
    decreases cands.len(),
{
    if cands.len() == 0 {
        Seq::empty()
    } else {
        push_spec(select_topk(cands.drop_last(), k), k, cands.last())
    }
}

/// Where `insert_pos` points: within bounds, behind every element that
/// scores at least `n`, and directly ahead of one that scores below `n`.
proof fn lemma_insert_pos_facts(s: Seq<Neighbour>, n: Neighbour)
    ensures
        0 <= insert_pos(s, n) <= s.len(),
        forall|j: int| 0 <= j < insert_pos(s, n) ==> s[j].similarity >= n.similarity,
        insert_pos(s, n) < s.len() ==> s[insert_pos(s, n)].similarity < n.similarity,
    decreases s.len(),
{
    if s.len() > 0 && s[0].similarity >= n.similarity {
        lemma_insert_pos_facts(s.drop_first(), n);
        assert forall|j: int| 0 <= j < insert_pos(s, n) implies s[j].similarity
            >= n.similarity by {
            if j > 0 {
                assert(s.drop_first()[j - 1] == s[j]);
            }
        }
    }
}

/// A scan that stopped at the first element scoring below `n` found
/// `insert_pos`.
proof fn lemma_insert_pos_agrees(s: Seq<Neighbour>, n: Neighbour, i: int)
    requires
        0 <= i <= s.len(),
        forall|j: int| 0 <= j < i ==> s[j].similarity >= n.similarity,
        i < s.len() ==> s[i].similarity < n.similarity,
    ensures
        insert_pos(s, n) == i,
    decreases s.len(),
{
    if s.len() > 0 && s[0].similarity >= n.similarity {
        assert forall|j: int| 0 <= j < i - 1 implies s.drop_first()[j].similarity
            >= n.similarity by {
            assert(s.drop_first()[j] == s[j + 1]);
        }
        lemma_insert_pos_agrees(s.drop_first(), n, i - 1);
    }
}

/// Inserting at `insert_pos` keeps the sequence descending and adds the
/// candidate to the retained multiset.
proof fn lemma_insert_desc(s: Seq<Neighbour>, n: Neighbour)
    requires
        sorted_desc(s),
    ensures
        sorted_desc(insert_desc(s, n)),
        insert_desc(s, n).len() == s.len() + 1,
        insert_desc(s, n).to_multiset() == s.to_multiset().insert(n),
        insert_desc(s, n).last().similarity == if s.len() > 0 && s.last().similarity
            < n.similarity {
            s.last().similarity
        } else {
            n.similarity
        },
{
    broadcast use vstd::seq_lib::group_to_multiset_ensures;

    lemma_insert_pos_facts(s, n);
    let p = insert_pos(s, n);
    let t = s.insert(p, n);
    assert forall|i: int, j: int| 0 <= i <= j < t.len() implies t[i].similarity
        >= t[j].similarity by {
        if i < p && j > p {
            assert(t[i] == s[i] && t[j] == s[j - 1]);
        }
    }
    if s.len() > 0 {
        if p == s.len() {
            assert(t.last() == n && s.last().similarity >= n.similarity);
        } else {
            assert(t.last() == s.last());
            if p == s.len() - 1 {
                assert(s.last().similarity < n.similarity);
            } else {
                assert(s.last().similarity <= s[p].similarity < n.similarity);
            }
        }
    }
}

/// The selector law of ties: pushing a candidate whose score equals the
/// weakest retained score of a full selector discards the newcomer and
/// leaves the selection unchanged.
pub proof fn lemma_push_tie_discards(s: Seq<Neighbour>, k: nat, n: Neighbour)
    requires
        s.len() == k,
        k > 0,
        n.similarity == s.last().similarity,
    ensures
        push_spec(s, k, n) == s,
{
}

/// The selector law: what a selector of capacity `k` retains after any
/// stream of pushes is a qualifying top-k selection — ordered descending,
/// drawn from the pushed candidates, as large as the stream and the capacity
/// allow, complete whenever the stream fits the capacity, and such that no
/// discarded candidate scores above any retained one.
pub proof fn lemma_selector_topk(cands: Seq<Neighbour>, k: nat)
    ensures
        sorted_desc(select_topk(cands, k)),
        select_topk(cands, k).to_multiset().subset_of(cands.to_multiset()),
        select_topk(cands, k).len() == if cands.len() <= k {
            cands.len() as int
        } else {
            k as int
        },
        cands.len() <= k ==> select_topk(cands, k).to_multiset() == cands.to_multiset(),
        forall|x: Neighbour|
            cands.to_multiset().count(x) > select_topk(cands, k).to_multiset().count(x)
                ==> forall|i: int|
                0 <= i < select_topk(cands, k).len() ==> select_topk(cands, k)[i].similarity
                    >= x.similarity,
    decreases cands.len(),
{
    broadcast use vstd::seq_lib::group_to_multiset_ensures;
    broadcast use vstd::multiset::group_multiset_axioms;

    if cands.len() == 0 {
        assert(select_topk(cands, k).to_multiset() =~= cands.to_multiset());
    } else {
        let prev = cands.drop_last();
        let n = cands.last();
        let s = select_topk(prev, k);
        let t = select_topk(cands, k);
        lemma_selector_topk(prev, k);
        assert(cands =~= prev.push(n));
        assert(cands.to_multiset() == prev.to_multiset().insert(n));
        if s.len() < k {
            lemma_insert_desc(s, n);
            assert(t.to_multiset() =~= cands.to_multiset());
        } else if k > 0 && n.similarity > s.last().similarity {
            let dl = s.drop_last();
            assert(s =~= dl.push(s.last()));
            assert(s.to_multiset() == dl.to_multiset().insert(s.last()));
            lemma_insert_desc(dl, n);
            assert(t.to_multiset() == dl.to_multiset().insert(n));
            assert forall|x: Neighbour|
                cands.to_multiset().count(x) > t.to_multiset().count(x) implies forall|i: int|
                0 <= i < t.len() ==> t[i].similarity >= x.similarity by {
                if prev.to_multiset().count(x) > s.to_multiset().count(x) {
                    // dropped earlier: everything in `s` scores at least `x`,
                    // and the selection keeps only elements of `s` plus `n`
                    assert forall|i: int| 0 <= i < t.len() implies t[i].similarity
                        >= x.similarity by {
                        assert(t.to_multiset().count(t[i]) > 0) by {
                            assert(t.contains(t[i]));
                        }
                        if t[i].similarity < n.similarity {
                            // then t[i] comes from dl, hence from s
                            assert(dl.to_multiset().count(t[i]) > 0);
                            assert(dl.contains(t[i]));
                            let di = choose|di: int| 0 <= di < dl.len() && dl[di] == t[i];
                            assert(s[di] == t[i]);
                        }
                    }
                } else {
                    // the newly evicted weakest is the only other loss
                    assert(x.similarity == s.last().similarity);
                    assert forall|i: int| 0 <= i < t.len() implies t[i].similarity
                        >= x.similarity by {
                        assert(t.contains(t[i]));
                        assert(t.to_multiset().count(t[i]) > 0);
                        if t[i].similarity < n.similarity {
                            assert(dl.to_multiset().count(t[i]) > 0);
                            assert(dl.contains(t[i]));
                            let di = choose|di: int| 0 <= di < dl.len() && dl[di] == t[i];
                            assert(s[di] == t[i]);
                            assert(s[di].similarity >= s.last().similarity);
                        }
                    }
                }
            }
        } else {
            // the newcomer is discarded (capacity zero, or no strict winner)
            assert(t == s);
            assert forall|x: Neighbour|
                cands.to_multiset().count(x) > t.to_multiset().count(x) implies forall|i: int|
                0 <= i < t.len() ==> t[i].similarity >= x.similarity by {
                if prev.to_multiset().count(x) > s.to_multiset().count(x) {
                } else {
                    assert(x == n);
                    assert forall|i: int| 0 <= i < t.len() implies t[i].similarity
                        >= x.similarity by {
                        assert(t[i].similarity >= t.last().similarity);
                    }
                }
            }
        }
    }
}

/// The capacity law: a selector never retains more than its capacity, and a
/// stream of at least `k` pushes fills it exactly to `k`.
pub proof fn lemma_selector_capacity(cands: Seq<Neighbour>, k: nat)
    ensures
        select_topk(cands, k).len() <= k,
        cands.len() >= k ==> select_topk(cands, k).len() == k,
        cands.len() < k ==> select_topk(cands, k).len() == cands.len(),
{
    lemma_selector_topk(cands, k);
}

/// A fixed-capacity selector over scored neighbours. Pushing keeps the k
/// highest-scoring candidates seen so far; draining returns them ordered
/// descending by score.
pub struct KLargestNeighboursHeap {
    heap: Vec<Neighbour>,
    k: usize,
}

impl View for KLargestNeighboursHeap {
    type V = Seq<Neighbour>;

    /// The retained candidates, ordered descending by score.
    closed spec fn view(&self) -> Seq<Neighbour> {
        self.heap@
    }
}

impl KLargestNeighboursHeap {
    #[verifier::type_invariant]
    spec fn well_formed(&self) -> bool {
        sorted_desc(self.heap@) && self.heap@.len() <= self.k
    }

    /// The capacity this selector was created with.
    pub closed spec fn capacity(&self) -> nat {
        self.k as nat
    }

    /// An empty selector of capacity `k`.
    pub fn new(k: usize) -> (r: Self)
        ensures
            r@ == Seq::<Neighbour>::empty(),
            r.capacity() == k,
    {
        Self { heap: Vec::new(), k }
    }

    /// Where `neighbour` would enter the retained sequence.
    fn find_pos(heap: &Vec<Neighbour>, neighbour: &Neighbour) -> (i: usize)
        ensures
            i == insert_pos(heap@, *neighbour),
            i <= heap@.len(),
    {
        let mut i: usize = 0;
        while i < heap.len() && heap[i].similarity >= neighbour.similarity
            invariant
                0 <= i <= heap@.len(),
                forall|j: int| 0 <= j < i ==> heap@[j].similarity >= neighbour.similarity,
            decreases heap@.len() - i,
        {
            i = i + 1;
        }
        proof {
            lemma_insert_pos_agrees(heap@, *neighbour, i as int);
        }
        i
    }

    /// Retain `neighbour` if it ranks among the k best seen so far: insert
    /// while below capacity; once full, evict the weakest only when the
    /// newcomer scores strictly higher, so that a tie keeps the
    /// earlier-arrived candidate.
    pub fn push(&mut self, neighbour: Neighbour)
        ensures
            final(self)@ == push_spec(old(self)@, old(self).capacity(), neighbour),
            final(self).capacity() == old(self).capacity(),
            final(self)@.len() <= old(self).capacity(),
    {
        proof {
            use_type_invariant(&*self);
            lemma_insert_pos_facts(self@, neighbour);
            lemma_insert_desc(self@, neighbour);
        }
        let mut h: Vec<Neighbour> = Vec::new();
        core::mem::swap(&mut h, &mut self.heap);
        if h.len() < self.k {
            let i = Self::find_pos(&h, &neighbour);
            h.insert(i, neighbour);
        } else if self.k > 0 && neighbour.similarity > h[h.len() - 1].similarity {
            proof {
                lemma_insert_desc(h@.drop_last(), neighbour);
            }
            h.pop();
            let i = Self::find_pos(&h, &neighbour);
            h.insert(i, neighbour);
        }
        self.heap = h;
    }

    /// Remove and return the weakest retained candidate, if any.
    pub fn pop(&mut self) -> (r: Option<Neighbour>)
        ensures
            old(self)@.len() == 0 ==> r is None && final(self)@ == old(self)@,
            old(self)@.len() > 0 ==> r == Some(old(self)@.last()) && final(self)@ == old(
                self,
            )@.drop_last(),
            final(self).capacity() == old(self).capacity(),
    {
        proof {
            use_type_invariant(&*self);
        }
        let mut h: Vec<Neighbour> = Vec::new();
        core::mem::swap(&mut h, &mut self.heap);
        let r = h.pop();
        self.heap = h;
        r
    }

    /// The weakest retained candidate, if any: the one an eviction would
    /// remove first.
    pub fn peek(&self) -> (r: Option<&Neighbour>)
        ensures
            self@.len() == 0 ==> r is None,
            self@.len() > 0 ==> (r matches Some(n) && *n == self@.last()),
    {
        if self.heap.len() == 0 {
            None
        } else {
            Some(&self.heap[self.heap.len() - 1])
        }
    }

    /// How many candidates are retained.
    pub fn len(&self) -> (r: usize)
        ensures
            r == self@.len(),
    {
        self.heap.len()
    }

    /// Consume the selector and return the retained candidates ordered
    /// descending by score.
    pub fn into_sorted_vec(self) -> (r: Vec<Neighbour>)
        ensures
            r@ == self@,
            sorted_desc(r@),
            r@.len() <= self.capacity(),
    {
        proof {
            use_type_invariant(&self);
        }
        self.heap
    }
}

} // verus!
