//! The search interface: what it means to answer a nearest-neighbour query
//! against a store, and the type that ties a store to a search algorithm.

use vstd::prelude::*;

use crate::data_structures::{select_topk, sorted_desc};
use crate::search::{candidates, SearchAlgorithm};
use crate::store::EmbeddingStore;
use crate::types::Neighbour;

verus! {

/// A nearest-neighbour search strategy.
///
/// A query is answered in two steps: the caller's similarity metric scores
/// every snapshot entry against the query vector (`scores[i]` belongs to
/// snapshot entry `i`), and `search` returns the k highest-scoring entries,
/// ordered descending by score. Keeping the scoring at the caller lets the
/// scan be verified for every metric: whatever scores come in, the result is
/// exactly the top-k of the scored candidates.
pub trait KNNInterface {
    /// How many neighbours a search returns at most.
    spec fn capacity(&self) -> nat;

    /// The top-k scored entries of the store's snapshot, ordered descending
    /// by score. An empty store yields an empty result, never an error; a
    /// store with fewer entries than the capacity yields them all.
    fn search(&self, database: &EmbeddingStore, scores: &Vec<u32>) -> (r: Vec<Neighbour>)
        requires
            scores@.len() == database@.len(),
        ensures
            r@ == select_topk(candidates(database@, scores@), self.capacity()),
            sorted_desc(r@),
            r@.len() == if database@.len() <= self.capacity() {
                database@.len() as int
            } else {
                self.capacity() as int
            },
            database@.len() == 0 ==> r@ == Seq::<Neighbour>::empty(),
    ;
}

/// A store paired with the search algorithm that answers queries against it.
pub struct KNNAlgortihm {
    pub database: EmbeddingStore,
    pub algorithm: SearchAlgorithm,
}

impl KNNAlgortihm {
    /// Pair `database` with `algorithm`.
    pub fn new(database: EmbeddingStore, algorithm: SearchAlgorithm) -> (r: Self)
        ensures
            r.database@ == database@,
            r.algorithm == algorithm,
    {
        Self { database, algorithm }
    }

    /// Answer a query against the paired store; see `KNNInterface::search`.
    pub fn search(&self, scores: &Vec<u32>) -> (r: Vec<Neighbour>)
        requires
            scores@.len() == self.database@.len(),
        ensures
            r@ == select_topk(candidates(self.database@, scores@), self.algorithm.capacity()),
            sorted_desc(r@),
            r@.len() == if self.database@.len() <= self.algorithm.capacity() {
                self.database@.len() as int
            } else {
                self.algorithm.capacity() as int
            },
            self.database@.len() == 0 ==> r@ == Seq::<Neighbour>::empty(),
    {
        self.algorithm.search(&self.database, scores)
    }
}

} // verus!
