//! Similarity metric selection: a closed set of metric variants, chosen once
//! from configuration. Adding a metric means adding a variant and its
//! scoring function; call sites select by configuration, not by subclassing.
//!
//! A metric scores two equal-length vectors; the cosine variant returns the
//! cosine of the angle between them, which an embedding application encodes
//! as an order-preserving key before the scores reach the verified scan.

use vstd::prelude::*;

verus! {

/// The cosine similarity metric: the dot product of two vectors divided by
/// the product of their norms. Scoring is real-valued arithmetic and happens
/// at the embedding application's boundary; the core carries only the
/// resulting order-preserving keys.
#[derive(Clone, Copy, Debug)]
pub struct CosineSimilarity;

/// The available similarity metrics.
#[derive(Clone, Copy, Debug)]
pub enum MetricType {
    Cosine(CosineSimilarity),
}

impl MetricType {
    /// The metric a configuration name selects: "cosine" names cosine
    /// similarity, and an unrecognized name falls back to cosine, never
    /// failing. The returned flag says whether the name was recognized, so
    /// that a caller can warn on the fallback.
    pub fn from_name(name: &String) -> (r: (MetricType, bool))
        ensures
            r.0 == MetricType::Cosine(CosineSimilarity),
            r.1 == (name@ == "cosine"@),
    {
        let cosine_name: String = "cosine".to_owned();
        let recognized = *name == cosine_name;
        (MetricType::Cosine(CosineSimilarity), recognized)
    }
}

} // verus!
