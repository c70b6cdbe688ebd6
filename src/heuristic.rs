use vstd::prelude::*;
use crate::metadata::records;
use crate::types::{Author, BlockRecord, NewBlockEvent};

verus! {

/// Turns a history window into one weight per candidate. Implementations are
/// pure: the weights are a function of the candidates and the history alone.
pub trait ReputationHeuristic {
    /// The weights given to `candidates` after `history`.
    spec fn weights(&self, candidates: Seq<Author>, history: Seq<BlockRecord>) -> Seq<u64>;

    /// Returns the weight of every candidate, in the order of `candidates`.
    fn get_weights(&self, candidates: &[Author], history: &[NewBlockEvent]) -> (r: Vec<u64>)
        ensures
            r@ == self.weights(candidates@, records(history@)),
    ;
}

/// `a` proposed or voted for some block of `history`.
pub open spec fn is_active(history: Seq<BlockRecord>, a: Author) -> bool {
    exists|i: int|
        0 <= i < history.len() && (#[trigger] history[i]).proposer == a
            || 0 <= i < history.len() && history[i].votes.contains(a)
}

/// Gives `active_weight` to candidates that proposed or voted in the history
/// window and `inactive_weight` to the others.
pub struct ActiveInactiveHeuristic {
    active_weight: u64,
    inactive_weight: u64,
}

impl ActiveInactiveHeuristic {
    pub closed spec fn active(&self) -> u64 {
        self.active_weight
    }

    pub closed spec fn inactive(&self) -> u64 {
        self.inactive_weight
    }

    pub fn new(active_weight: u64, inactive_weight: u64) -> (r: Self)
        ensures
            r.active() == active_weight,
            r.inactive() == inactive_weight,
    {
        ActiveInactiveHeuristic { active_weight, inactive_weight }
    }
}

fn voted(votes: &Vec<Author>, author: Author) -> (r: bool)
    ensures
        r == votes@.contains(author),
{
    let mut i: usize = 0;
    while i < votes.len()
        invariant
            i <= votes@.len(),
            forall|k: int| 0 <= k < i ==> votes@[k] != author,
        decreases votes@.len() - i,
    {
        if votes[i] == author {
            return true;
        }
        i = i + 1;
    }
    false
}

/// Whether `author` proposed or voted for any block of `history`.
fn appears_in(history: &[NewBlockEvent], author: Author) -> (r: bool)
    ensures
        r == is_active(records(history@), author),
{
    let ghost h = records(history@);
    let mut i: usize = 0;
    while i < history.len()
        invariant
            h == records(history@),
            i <= history@.len(),
            forall|k: int| 0 <= k < i ==> (#[trigger] h[k]).proposer != author,
            forall|k: int| 0 <= k < i ==> !(#[trigger] h[k]).votes.contains(author),
        decreases history@.len() - i,
    {
        if history[i].proposer == author || voted(&history[i].votes, author) {
            assert(h[i as int].proposer == author || h[i as int].votes.contains(author));
            return true;
        }
        assert(h[i as int] == history@[i as int]@);
        i = i + 1;
    }
    false
}

impl ReputationHeuristic for ActiveInactiveHeuristic {
    open spec fn weights(&self, candidates: Seq<Author>, history: Seq<BlockRecord>) -> Seq<u64> {
        Seq::new(
            candidates.len(),
            |i: int|
                if is_active(history, candidates[i]) {
                    self.active()
                } else {
                    self.inactive()
                },
        )
    }

    fn get_weights(&self, candidates: &[Author], history: &[NewBlockEvent]) -> (r: Vec<u64>) {
        let mut r: Vec<u64> = Vec::new();
        let mut i: usize = 0;
        while i < candidates.len()
            invariant
                i <= candidates@.len(),
                r@ == self.weights(candidates@, records(history@)).take(i as int),
            decreases candidates@.len() - i,
        {
            let w = if appears_in(history, candidates[i]) {
                self.active_weight
            } else {
                self.inactive_weight
            };
            r.push(w);
            assert(r@ =~= self.weights(candidates@, records(history@)).take(i + 1));
            i = i + 1;
        }
        assert(r@ =~= self.weights(candidates@, records(history@)));
        r
    }
}

} // verus!
