//! The brute-force scan: score every stored entry against the query and
//! retain the top k with a bounded selector. O(n log k) selection over n
//! candidates, no pre-built index.

use vstd::prelude::*;

use crate::data_structures::{lemma_selector_topk, select_topk, sorted_desc, KLargestNeighboursHeap};
use crate::nearest_neighbours::KNNInterface;
use crate::similarity::MetricType;
use crate::store::{contains_id, lemma_find_id_facts, spec_get, EmbeddingStore};
use crate::types::{EmbeddingEntry, Neighbour};

verus! {

/// The scored candidates of a scan: the identifier of each snapshot entry,
/// paired with the caller-supplied score of that entry against the query.
pub open spec fn candidates(entries: Seq<(u128, EmbeddingEntry)>, scores: Seq<u32>) -> Seq<
    Neighbour,
>
    recommends
        entries.len() == scores.len(),
{
    Seq::new(entries.len(), |i: int| Neighbour { uuid: entries[i].0, similarity: scores[i] })
}

/// The scan-completeness law: when the capacity covers the whole store, a
/// search returns a candidate for every stored entry — none is missed — and
/// the result is still ordered descending by score.
pub proof fn lemma_scan_complete(
    entries: Seq<(u128, EmbeddingEntry)>,
    scores: Seq<u32>,
    k: nat,
)
    requires
        scores.len() == entries.len(),
        entries.len() <= k,
    ensures
        select_topk(candidates(entries, scores), k).to_multiset() == candidates(
            entries,
            scores,
        ).to_multiset(),
        select_topk(candidates(entries, scores), k).len() == entries.len(),
        sorted_desc(select_topk(candidates(entries, scores), k)),
{
    lemma_selector_topk(candidates(entries, scores), k);
}

/// The deletion law: a store that holds no entry under `id` answers `get`
/// with nothing, and no search against it returns a neighbour carrying `id`,
/// whatever the scores and the capacity.
pub proof fn lemma_absent_never_returned(
    entries: Seq<(u128, EmbeddingEntry)>,
    scores: Seq<u32>,
    id: u128,
    k: nat,
)
    requires
        scores.len() == entries.len(),
        !contains_id(entries, id),
    ensures
        spec_get(entries, id) is None,
        forall|i: int|
            0 <= i < select_topk(candidates(entries, scores), k).len() ==> select_topk(
                candidates(entries, scores),
                k,
            )[i].uuid != id,
{
    broadcast use vstd::seq_lib::group_to_multiset_ensures;

    let cands = candidates(entries, scores);
    let t = select_topk(cands, k);
    lemma_find_id_facts(entries, id);
    lemma_selector_topk(cands, k);
    assert forall|i: int| 0 <= i < t.len() implies t[i].uuid != id by {
        assert(t.contains(t[i]));
        assert(t.to_multiset().count(t[i]) > 0);
        assert(cands.to_multiset().count(t[i]) > 0);
        assert(cands.contains(t[i]));
        let j = choose|j: int| 0 <= j < cands.len() && cands[j] == t[i];
        assert(t[i].uuid == entries[j].0);
    }
}

/// The available search strategies, a closed set selected by configuration.
#[derive(Clone, Copy)]
pub enum SearchAlgorithm {
    Brute(BruteForce),
}

impl KNNInterface for SearchAlgorithm {
    closed spec fn capacity(&self) -> nat {
        match self {
            SearchAlgorithm::Brute(method) => method.capacity(),
        }
    }

    fn search(&self, database: &EmbeddingStore, scores: &Vec<u32>) -> (r: Vec<Neighbour>) {
        match self {
            SearchAlgorithm::Brute(method) => method.search(database, scores),
        }
    }
}

impl SearchAlgorithm {
    /// The strategy a configuration name selects: "brute" names the
    /// brute-force scan, and an unrecognized name falls back to it, never
    /// failing. The returned flag says whether the name was recognized, so
    /// that a caller can warn on the fallback. The strategy searches with
    /// capacity `k` and scores with `metric`.
    pub fn from_name(name: &String, k: usize, metric: MetricType) -> (r: (SearchAlgorithm, bool))
        ensures
            (r.0 matches SearchAlgorithm::Brute(b) && b.capacity() == k && b.spec_metric()
                == metric),
            r.1 == (name@ == "brute"@),
    {
        let brute_name: String = "brute".to_owned();
        let recognized = *name == brute_name;
        (SearchAlgorithm::Brute(BruteForce::new(k, metric)), recognized)
    }
}

/// The brute-force strategy: a configured capacity and similarity metric.
/// It holds no state across calls; each search re-scans the entire store.
#[derive(Clone, Copy)]
pub struct BruteForce {
    k: usize,
    metric: MetricType,
}

impl BruteForce {
    /// The metric this strategy was configured with. Scoring with it is the
    /// caller's step of a search; see `KNNInterface`.
    pub closed spec fn spec_metric(&self) -> MetricType {
        self.metric
    }

    /// A brute-force strategy that returns at most `k` neighbours, scored by
    /// `metric`.
    pub fn new(k: usize, metric: MetricType) -> (r: Self)
        ensures
            r.capacity() == k,
            r.spec_metric() == metric,
    {
        Self { k, metric }
    }
}

impl KNNInterface for BruteForce {
    closed spec fn capacity(&self) -> nat {
        self.k as nat
    }

    fn search(&self, database: &EmbeddingStore, scores: &Vec<u32>) -> (r: Vec<Neighbour>) {
        let ghost cands = candidates(database@, scores@);
        let mut heap = KLargestNeighboursHeap::new(self.k);
        let n = database.len();
        let mut i: usize = 0;
        while i < n
            invariant
                0 <= i <= database@.len(),
                n == database@.len(),
                scores@.len() == database@.len(),
                cands == candidates(database@, scores@),
                heap.capacity() == self.k,
                heap@ == select_topk(cands.take(i as int), self.k as nat),
            decreases n - i,
        {
            let neighbour = Neighbour { uuid: database.id_at(i), similarity: scores[i] };
            heap.push(neighbour);
            proof {
                assert(cands.take(i + 1).drop_last() =~= cands.take(i as int));
                assert(cands.take(i + 1).last() == neighbour);
            }
            i = i + 1;
        }
        proof {
            assert(cands.take(n as int) =~= cands);
            lemma_selector_topk(cands, self.k as nat);
        }
        heap.into_sorted_vec()
    }
}

} // verus!
