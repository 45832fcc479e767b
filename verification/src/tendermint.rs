//! Tendermint round state and its persistence snapshot.
//!
//! The driver keeps one [`TendermintState`] per macro height. After every
//! transition the state is snapshotted as a [`MacroState`] keyed by the
//! height, so that a restart resumes at the same round, step, lock and
//! valid value. A snapshot read back at another height is stale and is
//! discarded.

use vstd::prelude::*;
use crate::block::{MacroBody, MacroHeader};
use crate::types::Digest;

verus! {

/// Step of a Tendermint round.
#[derive(Clone, Copy, Debug, PartialEq, Eq, Structural, Hash)]
pub enum Step {
    Propose,
    Prevote,
    Precommit,
}

/// Weight aggregated behind one proposal digest, or behind nil.
#[derive(Clone, Copy, Debug, PartialEq, Eq, Structural)]
pub struct VoteWeight {
    pub proposal: Option<Digest>,
    pub weight: u16,
}

/// Aggregated votes of one `(round, step)`: the weight gathered behind
/// each proposal and the aggregated signature.
#[derive(Clone, Debug, PartialEq, Eq)]
pub struct TendermintContribution {
    pub votes: Vec<VoteWeight>,
    pub signature: u64,
}

impl TendermintContribution {
    /// The weight recorded for `proposal` from position `i` on: the first
    /// matching entry wins.
    pub open spec fn weight_from(votes: Seq<VoteWeight>, proposal: Option<Digest>, i: int) -> int
        decreases votes.len() - i,
        when 0 <= i <= votes.len()
    {
        if i >= votes.len() {
            0
        } else if votes[i].proposal == proposal {
            votes[i].weight as int
        } else {
            Self::weight_from(votes, proposal, i + 1)
        }
    }

    /// The weight gathered behind one proposal, in spec form.
    pub open spec fn spec_weight_for(&self, proposal: Option<Digest>) -> int {
        Self::weight_from(self.votes@, proposal, 0)
    }

    /// The weight gathered behind one proposal.
    pub fn weight_for(&self, proposal: Option<Digest>) -> (r: u16)
        ensures
            r == self.spec_weight_for(proposal),
    {
        let mut i: usize = 0;
        while i < self.votes.len()
            invariant
                i <= self.votes.len(),
                Self::weight_from(self.votes@, proposal, 0) == Self::weight_from(
                    self.votes@,
                    proposal,
                    i as int,
                ),
            decreases self.votes.len() - i,
        {
            if self.votes[i].proposal == proposal {
                return self.votes[i].weight;
            }
            i = i + 1;
        }
        0
    }

    /// A copy of the contribution, known entry by entry.
    pub fn duplicate(&self) -> (r: TendermintContribution)
        ensures
            r.votes@ == self.votes@,
            r.signature == self.signature,
    {
        TendermintContribution {
            votes: crate::types::copy_vec(&self.votes),
            signature: self.signature,
        }
    }
}

/// A proposal received in some round: who signed it and which earlier
/// round, if any, it claims a prevote certificate from.
#[derive(Clone, Copy, Debug, PartialEq, Eq, Structural)]
pub struct RoundProposal {
    pub round: u32,
    pub digest: Digest,
    pub valid_round: Option<u32>,
    pub signature: u64,
    pub signer: u16,
}

/// A vote this node cast at some `(round, step)`.
#[derive(Clone, Copy, Debug, PartialEq, Eq, Structural)]
pub struct VoteRecord {
    pub round: u32,
    pub step: Step,
    pub vote: Option<Digest>,
}

/// The best aggregate seen for some `(round, step)`.
#[derive(Clone, Debug, PartialEq, Eq)]
pub struct BestVote {
    pub round: u32,
    pub step: Step,
    pub contribution: TendermintContribution,
}

/// A proposal handed back out of the snapshot, with its signature.
#[derive(Clone, Copy, Debug, PartialEq, Eq, Structural)]
pub struct SignedProposal {
    pub proposal: MacroHeader,
    pub round: u32,
    pub valid_round: Option<u32>,
    pub signature: u64,
    pub signer: u16,
}

/// The live Tendermint variables of one macro height.
#[derive(Clone, Debug, PartialEq, Eq)]
pub struct TendermintState {
    pub current_round: u32,
    pub current_step: Step,
    pub known_proposals: Vec<(Digest, MacroHeader)>,
    pub round_proposals: Vec<RoundProposal>,
    pub votes: Vec<VoteRecord>,
    pub best_votes: Vec<BestVote>,
    pub inherents: Vec<(Digest, MacroBody)>,
    pub locked: Option<(u32, Digest)>,
    pub valid: Option<(u32, Digest)>,
}

impl TendermintState {
    /// The proposal referenced by round entry `i` is known.
    pub open spec fn proposal_known(&self, i: int) -> bool {
        exists|j: int|
            0 <= j < self.known_proposals.len() && (#[trigger] self.known_proposals[j]).0
                == self.round_proposals[i].digest
    }

    /// The state invariant: the lock never outruns the valid value, both
    /// stay within the current round, every proposal referenced from a
    /// round is known, and votes are recorded only for reached rounds.
    pub open spec fn wf(&self) -> bool {
        &&& (self.locked is Some ==> self.valid is Some && self.locked->Some_0.0
            <= self.valid->Some_0.0)
        &&& (self.valid is Some ==> self.valid->Some_0.0 <= self.current_round)
        &&& forall|i: int|
            0 <= i < self.round_proposals.len() ==> #[trigger] self.proposal_known(i)
        &&& forall|i: int|
            0 <= i < self.votes.len() ==> (#[trigger] self.votes[i]).round <= self.current_round
        &&& forall|i: int|
            0 <= i < self.best_votes.len() ==> (#[trigger] self.best_votes[i]).round
                <= self.current_round
    }

    /// The state of a fresh height: round zero, about to propose, nothing
    /// seen.
    pub fn initial() -> (r: TendermintState)
        ensures
            r.wf(),
            r.current_round == 0,
            r.current_step == Step::Propose,
            r.locked is None,
            r.valid is None,
            r.known_proposals@.len() == 0,
            r.round_proposals@.len() == 0,
            r.votes@.len() == 0,
            r.best_votes@.len() == 0,
            r.inherents@.len() == 0,
    {
        TendermintState {
            current_round: 0,
            current_step: Step::Propose,
            known_proposals: Vec::new(),
            round_proposals: Vec::new(),
            votes: Vec::new(),
            best_votes: Vec::new(),
            inherents: Vec::new(),
            locked: None,
            valid: None,
        }
    }
}

/// The persisted snapshot of one height's Tendermint state.
#[derive(Clone, Debug, PartialEq, Eq)]
pub struct MacroState {
    pub block_number: u32,
    pub round_number: u32,
    pub step: Step,
    pub known_proposals: Vec<(Digest, MacroHeader)>,
    pub round_proposals: Vec<RoundProposal>,
    pub votes: Vec<VoteRecord>,
    pub best_votes: Vec<BestVote>,
    pub inherents: Vec<(Digest, MacroBody)>,
    pub locked: Option<(u32, Digest)>,
    pub valid: Option<(u32, Digest)>,
}

/// The snapshot a state persists to, in spec form.
pub open spec fn spec_from_tendermint_state(block_number: u32, state: TendermintState) -> MacroState {
    MacroState {
        block_number,
        round_number: state.current_round,
        step: state.current_step,
        known_proposals: state.known_proposals,
        round_proposals: state.round_proposals,
        votes: state.votes,
        best_votes: state.best_votes,
        inherents: state.inherents,
        locked: state.locked,
        valid: state.valid,
    }
}

/// The state a snapshot restores to, in spec form: the state itself at
/// its own height, nothing at any other height.
pub open spec fn spec_into_tendermint_state(snapshot: MacroState, reference_height: u32) -> Option<
    TendermintState,
> {
    if snapshot.block_number != reference_height {
        None
    } else {
        Some(
            TendermintState {
                current_round: snapshot.round_number,
                current_step: snapshot.step,
                known_proposals: snapshot.known_proposals,
                round_proposals: snapshot.round_proposals,
                votes: snapshot.votes,
                best_votes: snapshot.best_votes,
                inherents: snapshot.inherents,
                locked: snapshot.locked,
                valid: snapshot.valid,
            },
        )
    }
}

/// Persisting a state and restoring it at the same height gives the state
/// back unchanged; restoring at any other height gives nothing.
pub proof fn lemma_snapshot_round_trip(
    block_number: u32,
    state: TendermintState,
    reference_height: u32,
)
    ensures
        spec_into_tendermint_state(spec_from_tendermint_state(block_number, state), reference_height)
            == if reference_height == block_number {
            Some(state)
        } else {
            None::<TendermintState>
        },
{
}

impl MacroState {
    /// Snapshots the live state of a height.
    pub fn from_tendermint_state(block_number: u32, state: TendermintState) -> (r: MacroState)
        ensures
            r == spec_from_tendermint_state(block_number, state),
    {
        MacroState {
            block_number,
            round_number: state.current_round,
            step: state.current_step,
            known_proposals: state.known_proposals,
            round_proposals: state.round_proposals,
            votes: state.votes,
            best_votes: state.best_votes,
            inherents: state.inherents,
            locked: state.locked,
            valid: state.valid,
        }
    }

    /// Restores the live state, unless the snapshot is stale: only a
    /// snapshot taken at the reference height is used.
    pub fn into_tendermint_state(self, reference_height: u32) -> (r: Option<TendermintState>)
        ensures
            r == spec_into_tendermint_state(self, reference_height),
    {
        if self.block_number != reference_height {
            return None;
        }
        Some(
            TendermintState {
                current_round: self.round_number,
                current_step: self.step,
                known_proposals: self.known_proposals,
                round_proposals: self.round_proposals,
                votes: self.votes,
                best_votes: self.best_votes,
                inherents: self.inherents,
                locked: self.locked,
                valid: self.valid,
            },
        )
    }

    /// The proposal referenced by round entry `i` is known.
    pub open spec fn proposal_known(&self, i: int) -> bool {
        exists|j: int|
            0 <= j < self.known_proposals.len() && (#[trigger] self.known_proposals[j]).0
                == self.round_proposals[i].digest
    }

    /// The proposal stored for `(block_number, round_number,
    /// proposal_hash)`, with its signature, if the snapshot is at the
    /// right height and knows it.
    pub fn get_proposal_for(
        &self,
        block_number: u32,
        round_number: u32,
        proposal_hash: &Digest,
    ) -> (r: Option<SignedProposal>)
        requires
            forall|i: int|
                0 <= i < self.round_proposals.len() ==> #[trigger] self.proposal_known(i),
        ensures
            match r {
                Some(sp) => {
                    &&& self.block_number == block_number
                    &&& sp.round == round_number
                    &&& (exists|i: int|
                        0 <= i < self.round_proposals.len()
                            && (#[trigger] self.round_proposals[i]).round == round_number
                            && self.round_proposals[i].digest == *proposal_hash
                            && self.round_proposals[i].valid_round == sp.valid_round
                            && self.round_proposals[i].signature == sp.signature
                            && self.round_proposals[i].signer == sp.signer)
                    &&& (exists|j: int|
                        0 <= j < self.known_proposals.len()
                            && (#[trigger] self.known_proposals[j]).0 == *proposal_hash
                            && self.known_proposals[j].1 == sp.proposal)
                },
                None => self.block_number != block_number || !(exists|i: int|
                    0 <= i < self.round_proposals.len()
                        && (#[trigger] self.round_proposals[i]).round == round_number
                        && self.round_proposals[i].digest == *proposal_hash),
            },
    {
        if self.block_number != block_number {
            return None;
        }
        let mut i: usize = 0;
        while i < self.round_proposals.len()
            invariant
                i <= self.round_proposals.len(),
                self.block_number == block_number,
                forall|i0: int|
                    0 <= i0 < self.round_proposals.len() ==> #[trigger] self.proposal_known(i0),
                forall|k: int|
                    0 <= k < i ==> !((#[trigger] self.round_proposals[k]).round == round_number
                        && self.round_proposals[k].digest == *proposal_hash),
            decreases self.round_proposals.len() - i,
        {
            let rp = &self.round_proposals[i];
            if rp.round == round_number && rp.digest == *proposal_hash {
                // every proposal referenced by a round is also known
                proof {
                    assert(self.proposal_known(i as int));
                }
                let mut j: usize = 0;
                while j < self.known_proposals.len()
                    invariant
                        i < self.round_proposals.len(),
                        j <= self.known_proposals.len(),
                        self.round_proposals[i as int].digest == *proposal_hash,
                        self.round_proposals[i as int].round == round_number,
                        self.block_number == block_number,
                        exists|j0: int|
                            0 <= j0 < self.known_proposals.len() && (#[trigger] self
                                .known_proposals[j0]).0 == *proposal_hash,
                        forall|k: int|
                            0 <= k < j ==> (#[trigger] self.known_proposals[k]).0 != *proposal_hash,
                    decreases self.known_proposals.len() - j,
                {
                    if self.known_proposals[j].0 == *proposal_hash {
                        let sp = SignedProposal {
                            proposal: self.known_proposals[j].1,
                            round: round_number,
                            valid_round: self.round_proposals[i].valid_round,
                            signature: self.round_proposals[i].signature,
                            signer: self.round_proposals[i].signer,
                        };
                        proof {
                            let ii = i as int;
                            assert(0 <= ii < self.round_proposals.len()
                                && self.round_proposals[ii].round == round_number
                                && self.round_proposals[ii].digest == *proposal_hash
                                && self.round_proposals[ii].valid_round == sp.valid_round
                                && self.round_proposals[ii].signature == sp.signature
                                && self.round_proposals[ii].signer == sp.signer);
                            let jj = j as int;
                            assert(0 <= jj < self.known_proposals.len()
                                && self.known_proposals[jj].0 == *proposal_hash
                                && self.known_proposals[jj].1 == sp.proposal);
                        }
                        return Some(sp);
                    }
                    j = j + 1;
                }
                proof {
                    assert(false);
                }
            }
            i = i + 1;
        }
        None
    }
}

} // verus!
