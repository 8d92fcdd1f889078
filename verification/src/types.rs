//! Core data types: embeddings, stored entries, and search results.

use vstd::prelude::*;

verus! {

/// An embedding: an ordered, fixed-at-creation sequence of numeric
/// components. Each component is carried as an opaque 32-bit encoding; the
/// core never reads the numeric value of a component, it only stores the
/// vector and hands it to a similarity metric.
pub type Embedding = Vec<u32>;

/// A stored entry: a vector together with an attached text payload.
pub struct EmbeddingEntry {
    pub embeddings: Embedding,
    pub text: String,
}

impl EmbeddingEntry {
    /// A copy of this entry whose vector and payload read the same.
    pub fn duplicate(&self) -> (r: EmbeddingEntry)
        ensures
            r.embeddings@ == self.embeddings@,
            r.text@ == self.text@,
    {
        EmbeddingEntry { embeddings: self.embeddings.clone(), text: self.text.clone() }
    }
}

/// A search result item: the identifier of a stored entry and its similarity
/// score against the query, as an order-preserving key (a larger key means
/// "more similar").
#[derive(Clone, Copy, Debug)]
pub struct Neighbour {
    pub uuid: u128,
    pub similarity: u32,
}

/// Neighbours are compared by score only: two neighbours are equal when
/// their scores are, whatever their identifiers.
impl PartialEq for Neighbour {
    fn eq(&self, other: &Self) -> (r: bool)
    {
        self.similarity == other.similarity
    }
}

impl vstd::std_specs::cmp::PartialEqSpecImpl for Neighbour {
    open spec fn obeys_eq_spec() -> bool {
        true
    }

    open spec fn eq_spec(&self, other: &Neighbour) -> bool {
        self.similarity == other.similarity
    }
}

/// The total order over neighbours is descending by score: a neighbour with
/// a higher score orders first (compares as less), so that sorting ascending
/// yields the most similar neighbour at the front.
impl PartialOrd for Neighbour {
    fn partial_cmp(&self, other: &Neighbour) -> (r: Option<core::cmp::Ordering>)
    {
        if other.similarity < self.similarity {
            Some(core::cmp::Ordering::Less)
        } else if other.similarity == self.similarity {
            Some(core::cmp::Ordering::Equal)
        } else {
            Some(core::cmp::Ordering::Greater)
        }
    }
}

impl vstd::std_specs::cmp::PartialOrdSpecImpl for Neighbour {
    open spec fn obeys_partial_cmp_spec() -> bool {
        true
    }

    open spec fn partial_cmp_spec(&self, other: &Neighbour) -> Option<core::cmp::Ordering> {
        if other.similarity < self.similarity {
            Some(core::cmp::Ordering::Less)
        } else if other.similarity == self.similarity {
            Some(core::cmp::Ordering::Equal)
        } else {
            Some(core::cmp::Ordering::Greater)
        }
    }
}

} // verus!
