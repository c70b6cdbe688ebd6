use vstd::prelude::*;

verus! {

/// A defect in the election's configuration. Always fatal: masking one could
/// let validators diverge on the elected proposer.
#[derive(Clone, Copy, Debug, PartialEq, Eq, Structural)]
pub enum ConfigurationError {
    /// The candidate list is empty.
    EmptyCandidates,
    /// The heuristic returned a number of weights other than the number of candidates.
    WeightCountMismatch { weights: usize, candidates: usize },
    /// Every candidate has weight zero.
    ZeroTotalWeight,
    /// The weights add up to more than a `u64` holds.
    WeightOverflow,
}

/// A failure of the committed-history store, passed on unchanged.
#[derive(Debug)]
pub struct BackendError {
    pub message: String,
}

/// Why an election could not be decided.
#[derive(Debug)]
pub enum ElectionError {
    Backend(BackendError),
    Configuration(ConfigurationError),
}

} // verus!
