use vstd::prelude::*;

verus! {

/// A logical consensus round.
pub type Round = u64;

/// Identity of a validator. Only compared for equality by this crate.
#[derive(Clone, Copy, Debug, PartialEq, Eq, Hash, Structural)]
pub struct Author(pub u128);

/// The record emitted once when a block commits.
#[derive(Debug)]
pub struct NewBlockEvent {
    pub round: Round,
    pub proposer: Author,
    pub votes: Vec<Author>,
    pub timestamp: u64,
}

/// Mathematical view of a committed block record.
pub struct BlockRecord {
    pub round: Round,
    pub proposer: Author,
    pub votes: Seq<Author>,
    pub timestamp: u64,
}

impl View for NewBlockEvent {
    type V = BlockRecord;

    open spec fn view(&self) -> BlockRecord {
        BlockRecord {
            round: self.round,
            proposer: self.proposer,
            votes: self.votes@,
            timestamp: self.timestamp,
        }
    }
}

impl Clone for NewBlockEvent {
    fn clone(&self) -> (r: Self)
        ensures
            r@ == self@,
    {
        let mut votes: Vec<Author> = Vec::new();
        for i in 0..self.votes.len()
            invariant
                votes@ == self.votes@.take(i as int),
        {
            votes.push(self.votes[i]);
            assert(votes@ =~= self.votes@.take(i + 1));
        }
        assert(votes@ =~= self.votes@);
        NewBlockEvent {
            round: self.round,
            proposer: self.proposer,
            votes,
            timestamp: self.timestamp,
        }
    }
}

/// A block proposed for a round, as far as proposer election reads it.
#[derive(Debug)]
pub struct Proposal<T> {
    /// The signer of the proposal; `None` for blocks that have no author.
    pub author: Option<Author>,
    pub round: Round,
    pub payload: T,
}

} // verus!
