use vstd::prelude::*;
use crate::draw::draw_of;
use crate::error::{ConfigurationError, ElectionError};
use crate::heuristic::{ActiveInactiveHeuristic, ReputationHeuristic};
use crate::metadata::{eligible, records, window_of, MetadataBackend};
use crate::selection::{
    election_outcome, first_exceeding, lemma_prefix_sum_bounds, lemma_prefix_sum_monotone, prefix_sum, select_proposer, total_weight,
};
use crate::types::{Author, BlockRecord, NewBlockEvent, Proposal, Round};

verus! {

/// How many rounds the history used to elect a round's proposer lags behind it.
pub const ROUND_GAP: u64 = 4;

/// The last round whose committed history may be used to elect the proposer of `round`.
pub open spec fn target_round_of(round: Round) -> Round {
    if round >= ROUND_GAP {
        (round - ROUND_GAP) as Round
    } else {
        0
    }
}

/// The last round whose committed history may be used to elect the proposer of `round`.
pub fn target_round(round: Round) -> (r: Round)
    ensures
        r == target_round_of(round),
{
    if round >= ROUND_GAP {
        round - ROUND_GAP
    } else {
        0
    }
}

/// Proposer election that favours validators active in recent committed history.
/// Holds no state between calls: every answer is recomputed from the history.
pub struct LeaderReputation<B, H> {
    proposers: Vec<Author>,
    backend: B,
    window_size: usize,
    heuristic: H,
}

impl<B, H> LeaderReputation<B, H> {
    /// The candidates, in election order.
    pub closed spec fn candidates(&self) -> Seq<Author> {
        self.proposers@
    }

    pub closed spec fn backend(&self) -> B {
        self.backend
    }

    pub closed spec fn window_size(&self) -> nat {
        self.window_size as nat
    }

    pub closed spec fn heuristic(&self) -> H {
        self.heuristic
    }
}

impl<B: MetadataBackend, H: ReputationHeuristic> LeaderReputation<B, H> {
    /// The history window used to elect the proposer of `round`.
    pub open spec fn window(&self, round: Round) -> Seq<BlockRecord> {
        window_of(self.backend().history(), self.window_size(), target_round_of(round))
    }

    /// The proposer of `round`, as committed history determines it.
    pub open spec fn elected(&self, round: Round) -> Result<Author, ConfigurationError> {
        election_outcome(
            self.candidates(),
            self.heuristic().weights(self.candidates(), self.window(round)),
            round,
        )
    }

    /// The answer owed to `author` claiming to propose `round`.
    pub open spec fn authorization(&self, author: Author, round: Round) -> Result<
        Option<Author>,
        ConfigurationError,
    > {
        match self.elected(round) {
            Ok(a) => Ok(
                if a == author {
                    Some(author)
                } else {
                    None
                },
            ),
            Err(e) => Err(e),
        }
    }

    pub fn new(proposers: Vec<Author>, backend: B, window_size: usize, heuristic: H) -> (r: Self)
        ensures
            r.candidates() == proposers@,
            r.backend() == backend,
            r.window_size() == window_size,
            r.heuristic() == heuristic,
    {
        LeaderReputation { proposers, backend, window_size, heuristic }
    }

    /// Elects the proposer of `round` from the history window read for it.
    pub fn elect_with_window(&self, round: Round, window: &[NewBlockEvent]) -> (r: Result<
        Author,
        ConfigurationError,
    >)
        ensures
            r == election_outcome(
                self.candidates(),
                self.heuristic().weights(self.candidates(), records(window@)),
                round,
            ),
    {
        let weights = self.heuristic.get_weights(self.proposers.as_slice(), window);
        select_proposer(self.proposers.as_slice(), weights.as_slice(), round)
    }

    /// The authors allowed to propose `round`: exactly one when the election succeeds.
    pub fn get_valid_proposers(&self, round: Round) -> (r: Result<Vec<Author>, ElectionError>)
        ensures
            r matches Ok(v) ==> v@.len() == 1 && self.elected(round) == Ok::<
                Author,
                ConfigurationError,
            >(v@[0]),
            r matches Err(ElectionError::Configuration(e)) ==> self.elected(round) == Err::<
                Author,
                ConfigurationError,
            >(e),
            self.candidates().len() == 0 ==> r matches Err(
                ElectionError::Configuration(ConfigurationError::EmptyCandidates),
            ),
            r matches Err(ElectionError::Backend(_)) ==> self.candidates().len() > 0,
            self.backend().never_fails() ==> !(r matches Err(ElectionError::Backend(_))),
    {
        if self.proposers.len() == 0 {
            return Err(ElectionError::Configuration(ConfigurationError::EmptyCandidates));
        }
        let target = target_round(round);
        let window = match self.backend.get_block_metadata(self.window_size, target) {
            Ok(w) => w,
            Err(e) => return Err(ElectionError::Backend(e)),
        };
        match self.elect_with_window(round, window.as_slice()) {
            Ok(a) => {
                let mut v: Vec<Author> = Vec::new();
                v.push(a);
                Ok(v)
            },
            Err(e) => Err(ElectionError::Configuration(e)),
        }
    }

    /// `Some(author)` if `author` is the proposer of `round`, `None` otherwise.
    pub fn is_valid_proposer(&self, author: Author, round: Round) -> (r: Result<
        Option<Author>,
        ElectionError,
    >)
        ensures
            r matches Ok(x) ==> self.authorization(author, round) == Ok::<
                Option<Author>,
                ConfigurationError,
            >(x),
            r matches Err(ElectionError::Configuration(e)) ==> self.elected(round) == Err::<
                Author,
                ConfigurationError,
            >(e),
            self.candidates().len() == 0 ==> r matches Err(
                ElectionError::Configuration(ConfigurationError::EmptyCandidates),
            ),
            r matches Err(ElectionError::Backend(_)) ==> self.candidates().len() > 0,
            self.backend().never_fails() ==> !(r matches Err(ElectionError::Backend(_))),
    {
        match self.get_valid_proposers(round) {
            Ok(v) => {
                if v[0] == author {
                    Ok(Some(author))
                } else {
                    Ok(None)
                }
            },
            Err(e) => Err(e),
        }
    }

    /// Passes `proposal` on when its author is the proposer of its round, and
    /// drops it otherwise (also when it has no author).
    pub fn process_proposal<T>(&mut self, proposal: Proposal<T>) -> (r: Result<
        Option<Proposal<T>>,
        ElectionError,
    >)
        ensures
            *final(self) == *old(self),
            proposal.author is None ==> r matches Ok(None),
            r matches Ok(Some(p)) ==> p == proposal,
            r matches Ok(x) ==> (x is Some <==> (proposal.author matches Some(a) && old(
                self,
            ).elected(proposal.round) == Ok::<Author, ConfigurationError>(a))),
            r matches Err(ElectionError::Configuration(e)) ==> old(self).elected(proposal.round)
                == Err::<Author, ConfigurationError>(e),
            proposal.author is Some && old(self).candidates().len() == 0 ==> r matches Err(
                ElectionError::Configuration(ConfigurationError::EmptyCandidates),
            ),
            r matches Err(ElectionError::Backend(_)) ==> proposal.author is Some && old(
                self,
            ).candidates().len() > 0,
            old(self).backend().never_fails() ==> !(r matches Err(ElectionError::Backend(_))),
    {
        let author = match proposal.author {
            Some(a) => a,
            None => return Ok(None),
        };
        match self.get_valid_proposers(proposal.round) {
            Ok(v) => {
                if v[0] == author {
                    Ok(Some(proposal))
                } else {
                    Ok(None)
                }
            },
            Err(e) => Err(e),
        }
    }

    /// A fallback proposal for `round`; none is ever offered.
    pub fn take_backup_proposal<T>(&mut self, round: Round) -> (r: Option<Proposal<T>>)
        ensures
            *final(self) == *old(self),
            r is None,
    {
        None
    }
}

proof fn lemma_selected_in_range(w: Seq<u64>, chosen: int, i: int)
    requires
        0 <= i < w.len(),
        0 <= chosen < prefix_sum(w, w.len() as int),
    ensures
        0 <= first_exceeding(w, chosen, i) < w.len(),
    decreases w.len() - i,
{
    if prefix_sum(w, i + 1) <= chosen && i + 1 < w.len() {
        lemma_selected_in_range(w, chosen, i + 1);
    }
}

/// An elected proposer is always one of the candidates.
pub proof fn lemma_elected_is_candidate(candidates: Seq<Author>, weights: Seq<u64>, round: Round)
    ensures
        election_outcome(candidates, weights, round) matches Ok(a) ==> candidates.contains(a),
{
    lemma_prefix_sum_monotone(weights, 0, weights.len() as int);
    if candidates.len() > 0 && weights.len() == candidates.len() && 0 < total_weight(weights)
        <= u64::MAX {
        let t = total_weight(weights);
        let d = draw_of(round);
        let chosen = (d % (t as nat)) as int;
        assert(0 <= chosen < t) by (nonlinear_arith)
            requires
                chosen == (d % (t as nat)) as int,
                t > 0,
        ;
        lemma_selected_in_range(weights, chosen, 0);
        let i = first_exceeding(weights, chosen, 0);
        assert(election_outcome(candidates, weights, round) == Ok::<Author, ConfigurationError>(
            candidates[i],
        ));
        assert(candidates.contains(candidates[i]));
    }
}

/// Two engines with the same candidates, window size, committed history and
/// weighting elect the same proposer for every round: the election depends on
/// these and the round alone.
pub proof fn lemma_election_determinism<B1, H1, B2, H2>(
    e1: &LeaderReputation<B1, H1>,
    e2: &LeaderReputation<B2, H2>,
    round: Round,
) where
    B1: MetadataBackend,
    H1: ReputationHeuristic,
    B2: MetadataBackend,
    H2: ReputationHeuristic,

    requires
        e1.candidates() == e2.candidates(),
        e1.window_size() == e2.window_size(),
        e1.backend().history() == e2.backend().history(),
        forall|c: Seq<Author>, h: Seq<BlockRecord>|
            #[trigger] e1.heuristic().weights(c, h) == e2.heuristic().weights(c, h),
    ensures
        e1.elected(round) == e2.elected(round),
{
    assert(e1.window(round) == e2.window(round));
    assert(e1.heuristic().weights(e1.candidates(), e1.window(round)) == e2.heuristic().weights(
        e2.candidates(),
        e2.window(round),
    ));
}

/// `author` is authorized for `round` exactly when it is the elected proposer;
/// every other author, whether a candidate or not, is refused.
pub proof fn lemma_authorization_consistency<B: MetadataBackend, H: ReputationHeuristic>(
    e: &LeaderReputation<B, H>,
    author: Author,
    round: Round,
)
    ensures
        (e.authorization(author, round) matches Ok(Some(_))) <==> e.elected(round) == Ok::<
            Author,
            ConfigurationError,
        >(author),
        e.authorization(author, round) matches Ok(Some(x)) ==> x == author,
        e.elected(round) is Ok && !e.candidates().contains(author) ==> e.authorization(
            author,
            round,
        ) == Ok::<Option<Author>, ConfigurationError>(None),
{
    lemma_elected_is_candidate(
        e.candidates(),
        e.heuristic().weights(e.candidates(), e.window(round)),
        round,
    );
}

/// A weight vector of the wrong length, or whose weights are all zero, never
/// elects anyone.
pub proof fn lemma_fatal_weights(candidates: Seq<Author>, weights: Seq<u64>, round: Round)
    requires
        weights.len() != candidates.len() || total_weight(weights) == 0,
    ensures
        election_outcome(candidates, weights, round) is Err,
{
}

/// With no more records at or before the target round than the window holds,
/// the window is all of them: nothing is padded or dropped.
pub proof fn lemma_sparse_window(h: Seq<BlockRecord>, window_size: nat, target_round: Round)
    requires
        eligible(h, target_round).len() <= window_size,
    ensures
        window_of(h, window_size, target_round) == eligible(h, target_round),
{
}

/// With positive active and inactive weights whose total cannot overflow, the
/// active/inactive weighting elects a proposer for every round, whatever the
/// history window holds.
pub proof fn lemma_active_inactive_elects<B: MetadataBackend>(
    e: &LeaderReputation<B, ActiveInactiveHeuristic>,
    round: Round,
)
    requires
        e.candidates().len() > 0,
        e.heuristic().active() > 0,
        e.heuristic().inactive() > 0,
        e.candidates().len() * e.heuristic().active() <= u64::MAX,
        e.candidates().len() * e.heuristic().inactive() <= u64::MAX,
    ensures
        e.elected(round) is Ok,
{
    let c = e.candidates();
    let w = e.heuristic().weights(c, e.window(round));
    let a = e.heuristic().active() as int;
    let b = e.heuristic().inactive() as int;
    let lo = if a <= b { a } else { b };
    let hi = if a <= b { b } else { a };
    assert forall|i: int| 0 <= i < w.len() implies lo <= #[trigger] w[i] <= hi by {}
    lemma_prefix_sum_bounds(w, w.len() as int, lo, hi);
    assert(c.len() * lo >= 1) by (nonlinear_arith)
        requires
            c.len() >= 1,
            lo >= 1,
    ;
}

} // verus!
