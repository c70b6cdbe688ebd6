use vstd::prelude::*;
use crate::draw::{draw_of, round_draw};
use crate::error::ConfigurationError;
use crate::types::{Author, Round};

verus! {

/// Sum of the first `n` weights.
pub open spec fn prefix_sum(w: Seq<u64>, n: int) -> int
    decreases n,
{
    if n <= 0 || w.len() == 0 {
        0
    } else {
        prefix_sum(w, n - 1) + w[n - 1] as int
    }
}

/// Sum of all weights.
pub open spec fn total_weight(w: Seq<u64>) -> int {
    prefix_sum(w, w.len() as int)
}

/// The running sums: entry `i` is the sum of weights `0..=i`.
pub open spec fn cumulative(w: Seq<u64>) -> Seq<int> {
    Seq::new(w.len(), |i: int| prefix_sum(w, i + 1))
}

/// The smallest index at or after `i` whose running sum is strictly greater
/// than `chosen` (the length of `w` if there is none).
pub open spec fn first_exceeding(w: Seq<u64>, chosen: int, i: int) -> int
    decreases w.len() - i,
{
    if i < 0 || i >= w.len() {
        w.len() as int
    } else if prefix_sum(w, i + 1) > chosen {
        i
    } else {
        first_exceeding(w, chosen, i + 1)
    }
}

/// The index selected by `chosen`: the smallest `i` with `cumulative(w)[i] > chosen`.
pub open spec fn selected_index(w: Seq<u64>, chosen: int) -> int {
    first_exceeding(w, chosen, 0)
}

/// Where a draw falls among the candidates' weights, or why it cannot.
pub open spec fn weighted_outcome(w: Seq<u64>, draw: nat) -> Result<int, ConfigurationError> {
    if total_weight(w) > u64::MAX {
        Err(ConfigurationError::WeightOverflow)
    } else if total_weight(w) == 0 {
        Err(ConfigurationError::ZeroTotalWeight)
    } else {
        Ok(selected_index(w, (draw % (total_weight(w) as nat)) as int))
    }
}

/// The proposer that `weights` and the draw of `round` elect among `candidates`.
pub open spec fn election_outcome(candidates: Seq<Author>, weights: Seq<u64>, round: Round) -> Result<
    Author,
    ConfigurationError,
> {
    if candidates.len() == 0 {
        Err(ConfigurationError::EmptyCandidates)
    } else if weights.len() != candidates.len() {
        Err(
            ConfigurationError::WeightCountMismatch {
                weights: weights.len() as usize,
                candidates: candidates.len() as usize,
            },
        )
    } else {
        match weighted_outcome(weights, draw_of(round)) {
            Ok(i) => Ok(candidates[i]),
            Err(e) => Err(e),
        }
    }
}

/// Running sums never decrease.
pub proof fn lemma_prefix_sum_monotone(w: Seq<u64>, i: int, j: int)
    requires
        0 <= i <= j <= w.len(),
    ensures
        prefix_sum(w, i) <= prefix_sum(w, j),
    decreases j - i,
{
    if i < j {
        lemma_prefix_sum_monotone(w, i, j - 1);
    }
}

/// When every weight lies in `[lo, hi]`, the sum of the first `n` lies in
/// `[n * lo, n * hi]`.
pub proof fn lemma_prefix_sum_bounds(w: Seq<u64>, n: int, lo: int, hi: int)
    requires
        0 <= n <= w.len(),
        forall|i: int| 0 <= i < w.len() ==> lo <= #[trigger] w[i] <= hi,
    ensures
        n * lo <= prefix_sum(w, n) <= n * hi,
    decreases n,
{
    if n > 0 {
        lemma_prefix_sum_bounds(w, n - 1, lo, hi);
        assert(prefix_sum(w, n) == prefix_sum(w, n - 1) + w[n - 1] as int);
        assert(lo <= w[n - 1] <= hi);
        assert((n - 1) * lo + lo == n * lo) by (nonlinear_arith);
        assert((n - 1) * hi + hi == n * hi) by (nonlinear_arith);
    } else {
        assert(n * lo == 0 && n * hi == 0);
    }
}

proof fn lemma_first_exceeding(w: Seq<u64>, chosen: int, i: int, r: int)
    requires
        0 <= i <= r < w.len(),
        prefix_sum(w, r + 1) > chosen,
        forall|k: int| i < k <= r ==> #[trigger] prefix_sum(w, k) <= chosen,
    ensures
        first_exceeding(w, chosen, i) == r,
    decreases r - i,
{
    if i < r {
        lemma_first_exceeding(w, chosen, i + 1, r);
    }
}

/// The running sums of `weights`, or `None` when their total exceeds `u64::MAX`.
pub fn cumulative_weights(weights: &[u64]) -> (r: Option<Vec<u64>>)
    ensures
        r is Some <==> total_weight(weights@) <= u64::MAX,
        r matches Some(c) ==> c@.len() == weights@.len() && forall|i: int|
            0 <= i < c@.len() ==> #[trigger] c@[i] as int == prefix_sum(weights@, i + 1),
{
    let mut c: Vec<u64> = Vec::new();
    let mut total: u64 = 0;
    let mut i: usize = 0;
    while i < weights.len()
        invariant
            i <= weights@.len(),
            c@.len() == i,
            total as int == prefix_sum(weights@, i as int),
            forall|k: int| 0 <= k < i ==> c@[k] as int == prefix_sum(weights@, k + 1),
        decreases weights@.len() - i,
    {
        if total > u64::MAX - weights[i] {
            proof {
                lemma_prefix_sum_monotone(weights@, i + 1, weights@.len() as int);
            }
            return None;
        }
        total = total + weights[i];
        c.push(total);
        i = i + 1;
    }
    Some(c)
}

/// The smallest index whose running sum is strictly greater than `chosen`
/// (a running sum equal to `chosen` does not select its index).
fn first_index_above(c: &Vec<u64>, chosen: u64, Ghost(w): Ghost<Seq<u64>>) -> (r: usize)
    requires
        c@.len() == w.len(),
        c@.len() > 0,
        forall|i: int| 0 <= i < c@.len() ==> #[trigger] c@[i] as int == prefix_sum(w, i + 1),
        (chosen as int) < prefix_sum(w, w.len() as int),
    ensures
        r < c@.len(),
        r as int == selected_index(w, chosen as int),
        prefix_sum(w, r + 1) > chosen,
        forall|k: int| 0 < k <= r ==> #[trigger] prefix_sum(w, k) <= chosen,
{
    let mut lo: usize = 0;
    let mut hi: usize = c.len() - 1;
    while lo < hi
        invariant
            0 <= lo <= hi < c@.len(),
            c@.len() == w.len(),
            forall|i: int| 0 <= i < c@.len() ==> #[trigger] c@[i] as int == prefix_sum(w, i + 1),
            forall|k: int| 0 < k <= lo ==> #[trigger] prefix_sum(w, k) <= chosen,
            prefix_sum(w, hi + 1) > chosen,
        decreases hi - lo,
    {
        let mid = lo + (hi - lo) / 2;
        if c[mid] <= chosen {
            assert forall|k: int| 0 < k <= mid + 1 implies #[trigger] prefix_sum(w, k) <= chosen by {
                lemma_prefix_sum_monotone(w, k, mid + 1);
            }
            lo = mid + 1;
        } else {
            hi = mid;
        }
    }
    proof {
        lemma_first_exceeding(w, chosen as int, 0, lo as int);
    }
    lo
}

/// Index into `weights` selected by `draw`: with `total` the sum of the weights,
/// the smallest `i` whose running sum exceeds `draw % total`.
pub fn weighted_index(weights: &[u64], draw: u64) -> (r: Result<usize, ConfigurationError>)
    ensures
        r matches Ok(i) ==> weighted_outcome(weights@, draw as nat) == Ok::<int, ConfigurationError>(i as int),
        r matches Err(e) ==> weighted_outcome(weights@, draw as nat) == Err::<int, ConfigurationError>(e),
        r matches Ok(i) ==> i < weights@.len()
            && cumulative(weights@)[i as int] > (draw as int) % total_weight(weights@)
            && forall|j: int| 0 <= j < i ==> #[trigger] cumulative(weights@)[j]
                <= (draw as int) % total_weight(weights@),
{
    let c = match cumulative_weights(weights) {
        Some(c) => c,
        None => return Err(ConfigurationError::WeightOverflow),
    };
    if c.len() == 0 || c[c.len() - 1] == 0 {
        return Err(ConfigurationError::ZeroTotalWeight);
    }
    let total = c[c.len() - 1];
    assert(total as int == total_weight(weights@));
    let chosen = draw % total;
    let i = first_index_above(&c, chosen, Ghost(weights@));
    proof {
        let w = weights@;
        assert forall|j: int| 0 <= j < i implies #[trigger] cumulative(w)[j] <= (draw as int) % total_weight(w) by {
            assert(prefix_sum(w, j + 1) <= chosen);
        }
        assert(cumulative(w)[i as int] == prefix_sum(w, i + 1));
    }
    Ok(i)
}

/// Elects the proposer of `round` among `candidates` from their weights.
pub fn select_proposer(candidates: &[Author], weights: &[u64], round: Round) -> (r: Result<
    Author,
    ConfigurationError,
>)
    ensures
        r == election_outcome(candidates@, weights@, round),
{
    if candidates.len() == 0 {
        return Err(ConfigurationError::EmptyCandidates);
    }
    if weights.len() != candidates.len() {
        return Err(
            ConfigurationError::WeightCountMismatch {
                weights: weights.len(),
                candidates: candidates.len(),
            },
        );
    }
    let draw = round_draw(round);
    match weighted_index(weights, draw) {
        Ok(i) => Ok(candidates[i]),
        Err(e) => Err(e),
    }
}

} // verus!
