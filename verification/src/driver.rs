//! Round and step transitions of the macro-block finalization protocol.
//!
//! The protocol runs over a validator set of `n` voting slots tolerating
//! `f` Byzantine slots, with `n >= 3f + 1`; a vote aggregate is decisive
//! at `2f + 1` slots and round-skip evidence at `f + 1`. Each handler
//! turns one event — a proposal, an aggregate, a timeout — into the next
//! state and the vote or decision to send. Persistence of the state
//! between the transition and the outgoing message is the caller's duty.

use vstd::prelude::*;
use vstd::set_lib::lemma_set_intersect_union_lens;
use vstd::set_lib::lemma_len_subset;
use crate::block::MacroHeader;
use crate::policy::SLOTS;
use crate::tendermint::{
    BestVote, RoundProposal, Step, TendermintContribution, TendermintState, VoteRecord, VoteWeight,
};
use crate::types::Digest;

verus! {

/// Fault-tolerance and timing parameters of the protocol.
#[derive(Clone, Copy, Debug, PartialEq, Eq, Structural)]
pub struct ProtocolParams {
    /// Total number of voting slots.
    pub n: u16,
    /// Number of Byzantine slots tolerated.
    pub f: u16,
    pub propose_timeout_base: u64,
    pub propose_timeout_delta: u64,
    pub prevote_timeout_base: u64,
    pub prevote_timeout_delta: u64,
    pub precommit_timeout_base: u64,
    pub precommit_timeout_delta: u64,
}

impl ProtocolParams {
    /// The tolerance bound: more than two thirds of the slots are honest.
    pub open spec fn wf(&self) -> bool {
        self.n >= 3 * self.f + 1
    }

    /// Weight at which a vote aggregate is decisive.
    pub fn two_thirds_threshold(&self) -> (r: u16)
        requires
            self.wf(),
        ensures
            r == 2 * self.f + 1,
            r <= self.n,
    {
        2 * self.f + 1
    }

    /// Weight at which evidence of a future round is believed.
    pub fn one_third_threshold(&self) -> (r: u16)
        requires
            self.wf(),
        ensures
            r == self.f + 1,
            r <= self.n,
    {
        self.f + 1
    }

    /// How long to wait in a step of `round` before giving up on it:
    /// the base timeout plus one delta per round already failed, saturated
    /// at the largest representable duration.
    pub fn timeout_duration(&self, step: Step, round: u32) -> (r: u64)
        ensures
            ({
                let (base, delta) = match step {
                    Step::Propose => (self.propose_timeout_base, self.propose_timeout_delta),
                    Step::Prevote => (self.prevote_timeout_base, self.prevote_timeout_delta),
                    Step::Precommit => (self.precommit_timeout_base, self.precommit_timeout_delta),
                };
                let exact = base + round * delta;
                r == if exact <= u64::MAX {
                    exact
                } else {
                    u64::MAX as int
                }
            }),
    {
        let (base, delta) = match step {
            Step::Propose => (self.propose_timeout_base, self.propose_timeout_delta),
            Step::Prevote => (self.prevote_timeout_base, self.prevote_timeout_delta),
            Step::Precommit => (self.precommit_timeout_base, self.precommit_timeout_delta),
        };
        proof {
            assert(round as int * delta as int <= 0xffff_ffff * 0xffff_ffff_ffff_ffff)
                by (nonlinear_arith)
                requires
                    round <= 0xffff_ffffu32,
                    delta <= 0xffff_ffff_ffff_ffffu64,
            ;
        }
        let exact: u128 = base as u128 + round as u128 * delta as u128;
        if exact <= u64::MAX as u128 {
            exact as u64
        } else {
            u64::MAX
        }
    }
}

/// Two decisive vote aggregates always share at least `f + 1` slots, so
/// at least one honest slot stands behind both: the overlap at the core
/// of the protocol's safety, by which two finalized macro blocks at one
/// height are identical. With `n == 3f + 1` slots, any two aggregates of
/// `2f + 1` slots each satisfy the weight bound.
pub proof fn lemma_quorum_overlap(n: int, f: int, a: Set<int>, b: Set<int>)
    requires
        f >= 0,
        n >= 1,
        a.finite(),
        b.finite(),
        a.subset_of(vstd::set_lib::set_int_range(0, n)),
        b.subset_of(vstd::set_lib::set_int_range(0, n)),
        a.len() + b.len() >= n + f + 1,
    ensures
        a.intersect(b).len() >= f + 1,
        exists|s: int| a.contains(s) && b.contains(s),
{
    let range = vstd::set_lib::set_int_range(0, n);
    vstd::set_lib::lemma_int_range(0, n);
    assert((a + b).subset_of(range));
    lemma_len_subset(a + b, range);
    lemma_set_intersect_union_lens(a, b);
    assert(a.intersect(b).len() >= 1);
    let s = a.intersect(b).choose();
    assert(a.intersect(b).contains(s));
    assert(a.contains(s) && b.contains(s));
}

/// The first proposal in an aggregate that gathered at least `threshold`
/// weight, if any, from position `i` on.
pub open spec fn quorum_from(votes: Seq<VoteWeight>, threshold: u16, i: int) -> Option<Digest>
    decreases votes.len() - i,
    when 0 <= i <= votes.len()
{
    if i >= votes.len() {
        None
    } else if votes[i].proposal is Some && votes[i].weight >= threshold {
        votes[i].proposal
    } else {
        quorum_from(votes, threshold, i + 1)
    }
}

impl TendermintContribution {
    /// The first proposal this aggregate is decisive for, if any.
    pub fn find_quorum(&self, threshold: u16) -> (r: Option<Digest>)
        ensures
            r == quorum_from(self.votes@, threshold, 0),
    {
        let mut i: usize = 0;
        while i < self.votes.len()
            invariant
                i <= self.votes.len(),
                quorum_from(self.votes@, threshold, 0) == quorum_from(
                    self.votes@,
                    threshold,
                    i as int,
                ),
            decreases self.votes.len() - i,
        {
            let vw = self.votes[i];
            match vw.proposal {
                Some(d) => {
                    if vw.weight >= threshold {
                        return Some(d);
                    }
                },
                None => {},
            }
            i = i + 1;
        }
        None
    }

    /// The weight gathered over all proposals and nil together.
    pub fn total_weight(&self) -> (r: u64)
        requires
            self.votes@.len() <= SLOTS,
        ensures
            r == Self::spec_total_weight(self.votes@, self.votes@.len() as int),
    {
        let mut total: u64 = 0;
        let mut i: usize = 0;
        while i < self.votes.len()
            invariant
                self.votes@.len() <= SLOTS,
                i <= self.votes.len(),
                total == Self::spec_total_weight(self.votes@, i as int),
                total <= i * 0xffff,
            decreases self.votes.len() - i,
        {
            total = total + self.votes[i].weight as u64;
            i = i + 1;
        }
        total
    }

    /// Sum of the weights of the first `i` entries.
    pub open spec fn spec_total_weight(votes: Seq<VoteWeight>, i: int) -> int
        decreases i,
    {
        if i <= 0 {
            0
        } else {
            Self::spec_total_weight(votes, i - 1) + votes[i - 1].weight
        }
    }
}

/// Whether the node has seen a decisive prevote aggregate for `proposal`
/// at `round`.
pub open spec fn spec_has_prevote_quorum(
    state: &TendermintState,
    round: u32,
    proposal: Digest,
    threshold: u16,
) -> bool {
    exists|i: int|
        0 <= i < state.best_votes.len() && (#[trigger] state.best_votes[i]).round == round
            && state.best_votes[i].step == Step::Prevote
            && state.best_votes[i].contribution.spec_weight_for(Some(proposal)) >= threshold
}

/// The prevote the protocol casts on a proposal, under the locking rule:
/// a fresh proposal is voted only when the node is unlocked or locked on
/// that very value; a proposal replayed from an earlier valid round `v`
/// is voted only with a decisive prevote aggregate at `v` and only when
/// any lock is not newer than `v`.
pub open spec fn spec_decide_prevote(
    state: &TendermintState,
    round: u32,
    proposal: Digest,
    valid_round: Option<u32>,
    threshold: u16,
) -> Option<Digest> {
    match valid_round {
        None => {
            if state.locked is None || state.locked->Some_0.1 == proposal {
                Some(proposal)
            } else {
                None
            }
        },
        Some(v) => {
            if v < round && spec_has_prevote_quorum(state, v, proposal, threshold) && (state.locked
                is None || state.locked->Some_0.0 <= v || state.locked->Some_0.1 == proposal) {
                Some(proposal)
            } else {
                None
            }
        },
    }
}

impl TendermintState {
    /// Known proposals stay known across a transition that leaves the
    /// proposal tables alone.
    pub proof fn lemma_proposals_known_transfer(a: &TendermintState, b: &TendermintState)
        requires
            forall|i: int|
                0 <= i < a.round_proposals.len() ==> #[trigger] a.proposal_known(i),
            b.known_proposals == a.known_proposals,
            b.round_proposals == a.round_proposals,
        ensures
            forall|i: int|
                0 <= i < b.round_proposals.len() ==> #[trigger] b.proposal_known(i),
    {
        assert forall|i: int|
            0 <= i < b.round_proposals.len() implies #[trigger] b.proposal_known(i) by {
            assert(a.proposal_known(i));
            let j = choose|j: int|
                0 <= j < a.known_proposals.len() && (#[trigger] a.known_proposals[j]).0
                    == a.round_proposals[i].digest;
            assert(b.known_proposals[j].0 == b.round_proposals[i].digest);
        };
    }

    /// Whether a decisive prevote aggregate for `proposal` at `round` has
    /// been seen.
    pub fn has_prevote_quorum(&self, round: u32, proposal: Digest, threshold: u16) -> (r: bool)
        ensures
            r == spec_has_prevote_quorum(self, round, proposal, threshold),
    {
        let mut i: usize = 0;
        while i < self.best_votes.len()
            invariant
                i <= self.best_votes.len(),
                forall|j: int|
                    0 <= j < i ==> !((#[trigger] self.best_votes[j]).round == round
                        && self.best_votes[j].step == Step::Prevote
                        && self.best_votes[j].contribution.spec_weight_for(Some(proposal))
                        >= threshold),
            decreases self.best_votes.len() - i,
        {
            let bv = &self.best_votes[i];
            if bv.round == round && bv.step == Step::Prevote && bv.contribution.weight_for(
                Some(proposal),
            ) >= threshold {
                return true;
            }
            i = i + 1;
        }
        false
    }

    /// The prevote to cast on a proposal, nil when the locking rule
    /// forbids it. The vote only ever deviates from a held lock towards a
    /// value backed by a decisive prevote aggregate at or after the locked
    /// round.
    pub fn decide_prevote(
        &self,
        round: u32,
        proposal: Digest,
        valid_round: Option<u32>,
        threshold: u16,
    ) -> (r: Option<Digest>)
        ensures
            r == spec_decide_prevote(self, round, proposal, valid_round, threshold),
            // the locking rule: any vote away from the lock carries a
            // decisive prevote aggregate no older than the lock
            self.locked is Some && r is Some && r->Some_0 != self.locked->Some_0.1 ==> exists|
                v: u32,
            |
                self.locked->Some_0.0 <= v < round && spec_has_prevote_quorum(
                    self,
                    v,
                    r->Some_0,
                    threshold,
                ),
    {
        match valid_round {
            None => {
                let vote = match &self.locked {
                    None => Some(proposal),
                    Some(l) => {
                        if l.1 == proposal {
                            Some(proposal)
                        } else {
                            None
                        }
                    },
                };
                vote
            },
            Some(v) => {
                if v < round && self.has_prevote_quorum(v, proposal, threshold) {
                    let allowed = match &self.locked {
                        None => true,
                        Some(l) => l.0 <= v || l.1 == proposal,
                    };
                    if allowed {
                        Some(proposal)
                    } else {
                        None
                    }
                } else {
                    None
                }
            },
        }
    }

    /// Handles a proposal for the current round while in the propose
    /// step: stores it, casts the prevote the locking rule allows, and
    /// moves to the prevote step. Anything else is dropped unchanged:
    /// stale or early proposals never mutate the state.
    pub fn on_proposal(
        &mut self,
        round: u32,
        valid_round: Option<u32>,
        header: MacroHeader,
        digest: Digest,
        signature: u64,
        signer: u16,
        threshold: u16,
    ) -> (r: Option<Option<Digest>>)
        requires
            old(self).wf(),
        ensures
            final(self).wf(),
            if round == old(self).current_round && old(self).current_step == Step::Propose {
                let vote = spec_decide_prevote(old(self), round, digest, valid_round, threshold);
                &&& r == Some(vote)
                &&& final(self).known_proposals@ == old(self).known_proposals@.push(
                    (digest, header),
                )
                &&& final(self).round_proposals@ == old(self).round_proposals@.push(
                    RoundProposal { round, digest, valid_round, signature, signer },
                )
                &&& final(self).votes@ == old(self).votes@.push(
                    VoteRecord { round, step: Step::Prevote, vote },
                )
                &&& final(self).current_round == old(self).current_round
                &&& final(self).current_step == Step::Prevote
                &&& final(self).best_votes == old(self).best_votes
                &&& final(self).locked == old(self).locked
                &&& final(self).valid == old(self).valid
                &&& final(self).inherents == old(self).inherents
            } else {
                r is None && *final(self) == *old(self)
            },
    {
        if !(round == self.current_round && matches!(self.current_step, Step::Propose)) {
            return None;
        }
        let vote = self.decide_prevote(round, digest, valid_round, threshold);
        self.known_proposals.push((digest, header));
        self.round_proposals.push(RoundProposal { round, digest, valid_round, signature, signer });
        self.votes.push(VoteRecord { round, step: Step::Prevote, vote });
        self.current_step = Step::Prevote;
        proof {
            assert forall|i: int|
                0 <= i < self.round_proposals.len() implies #[trigger] self.proposal_known(i) by {
                if i < old(self).round_proposals.len() {
                    assert(old(self).proposal_known(i));
                    let j = choose|j: int|
                        0 <= j < old(self).known_proposals.len() && (#[trigger] old(
                            self,
                        ).known_proposals[j]).0 == old(self).round_proposals[i].digest;
                    assert(self.known_proposals[j].0 == self.round_proposals[i].digest);
                } else {
                    assert(self.known_proposals[self.known_proposals.len() - 1].0
                        == self.round_proposals[i].digest);
                }
            };
        }
        Some(vote)
    }

    /// Handles a prevote aggregate for the current round while in the
    /// prevote step: records it, and when it is decisive for a value,
    /// adopts that value as valid and casts a precommit for it; when it is
    /// decisive for nil, precommits nil. Either precommit moves to the
    /// precommit step. An indecisive aggregate, or one for another round
    /// or step, is recorded or dropped without a vote.
    pub fn on_prevote_aggregate(&mut self, round: u32, contribution: TendermintContribution, threshold: u16) -> (r:
        Option<Option<Digest>>)
        requires
            old(self).wf(),
        ensures
            final(self).wf(),
            if round == old(self).current_round && old(self).current_step == Step::Prevote {
                let quorum = quorum_from(contribution.votes@, threshold, 0);
                let nil_weight = contribution.spec_weight_for(None);
                &&& final(self).best_votes@ == old(self).best_votes@.push(
                    BestVote { round, step: Step::Prevote, contribution },
                )
                &&& match quorum {
                    Some(h) => {
                        &&& r == Some(Some(h))
                        &&& final(self).valid == Some((round, h))
                        &&& final(self).current_step == Step::Precommit
                        &&& final(self).votes@ == old(self).votes@.push(
                            VoteRecord { round, step: Step::Precommit, vote: Some(h) },
                        )
                    },
                    None => {
                        if nil_weight >= threshold {
                            &&& r == Some(None::<Digest>)
                            &&& final(self).valid == old(self).valid
                            &&& final(self).current_step == Step::Precommit
                            &&& final(self).votes@ == old(self).votes@.push(
                                VoteRecord { round, step: Step::Precommit, vote: None },
                            )
                        } else {
                            &&& r is None
                            &&& final(self).valid == old(self).valid
                            &&& final(self).current_step == Step::Prevote
                            &&& final(self).votes == old(self).votes
                        }
                    },
                }
                &&& final(self).current_round == old(self).current_round
                &&& final(self).locked == old(self).locked
                &&& final(self).known_proposals == old(self).known_proposals
                &&& final(self).round_proposals == old(self).round_proposals
                &&& final(self).inherents == old(self).inherents
            } else {
                r is None && *final(self) == *old(self)
            },
    {
        if !(round == self.current_round && matches!(self.current_step, Step::Prevote)) {
            return None;
        }
        let quorum = contribution.find_quorum(threshold);
        let nil_weight = contribution.weight_for(None);
        self.best_votes.push(BestVote { round, step: Step::Prevote, contribution });
        match quorum {
            Some(h) => {
                self.valid = Some((round, h));
                self.votes.push(VoteRecord { round, step: Step::Precommit, vote: Some(h) });
                self.current_step = Step::Precommit;
                proof {
                    Self::lemma_proposals_known_transfer(old(self), self);
                }
                Some(Some(h))
            },
            None => {
                if nil_weight >= threshold {
                    self.votes.push(VoteRecord { round, step: Step::Precommit, vote: None });
                    self.current_step = Step::Precommit;
                    proof {
                        Self::lemma_proposals_known_transfer(old(self), self);
                    }
                    Some(None)
                } else {
                    proof {
                        Self::lemma_proposals_known_transfer(old(self), self);
                    }
                    None
                }
            },
        }
    }

    /// Handles a precommit aggregate for the current round while in the
    /// precommit step: a decisive aggregate for a value locks on it and
    /// decides it — the caller emits the finalized macro block with this
    /// aggregate as its justification. A decisive aggregate for nil
    /// advances to the next round. Anything else only records the
    /// aggregate.
    pub fn on_precommit_aggregate(&mut self, round: u32, contribution: TendermintContribution, threshold: u16) -> (r:
        Option<Digest>)
        requires
            old(self).wf(),
            old(self).current_round < u32::MAX,
        ensures
            final(self).wf(),
            if round == old(self).current_round && old(self).current_step == Step::Precommit {
                let quorum = quorum_from(contribution.votes@, threshold, 0);
                let nil_weight = contribution.spec_weight_for(None);
                &&& final(self).best_votes@ == old(self).best_votes@.push(
                    BestVote { round, step: Step::Precommit, contribution },
                )
                &&& match quorum {
                    Some(h) => {
                        &&& r == Some(h)
                        &&& final(self).locked == Some((round, h))
                        &&& final(self).valid == Some((round, h))
                        &&& final(self).current_round == old(self).current_round
                        &&& final(self).current_step == old(self).current_step
                    },
                    None => {
                        &&& r is None
                        &&& final(self).locked == old(self).locked
                        &&& final(self).valid == old(self).valid
                        &&& if nil_weight >= threshold {
                            final(self).current_round == old(self).current_round + 1
                                && final(self).current_step == Step::Propose
                        } else {
                            final(self).current_round == old(self).current_round
                                && final(self).current_step == old(self).current_step
                        }
                    },
                }
                &&& final(self).votes == old(self).votes
                &&& final(self).known_proposals == old(self).known_proposals
                &&& final(self).round_proposals == old(self).round_proposals
                &&& final(self).inherents == old(self).inherents
            } else {
                r is None && *final(self) == *old(self)
            },
    {
        if !(round == self.current_round && matches!(self.current_step, Step::Precommit)) {
            return None;
        }
        let quorum = contribution.find_quorum(threshold);
        let nil_weight = contribution.weight_for(None);
        self.best_votes.push(BestVote { round, step: Step::Precommit, contribution });
        match quorum {
            Some(h) => {
                self.locked = Some((round, h));
                self.valid = Some((round, h));
                proof {
                    Self::lemma_proposals_known_transfer(old(self), self);
                }
                Some(h)
            },
            None => {
                if nil_weight >= threshold {
                    self.current_round = self.current_round + 1;
                    self.current_step = Step::Propose;
                }
                proof {
                    Self::lemma_proposals_known_transfer(old(self), self);
                }
                None
            },
        }
    }

    /// Handles an expired timer: a propose timeout prevotes nil, a
    /// prevote timeout precommits nil, a precommit timeout advances to
    /// the next round. A timer for another round or step is stale and
    /// changes nothing.
    pub fn on_timeout(&mut self, round: u32, step: Step) -> (r: Option<VoteRecord>)
        requires
            old(self).wf(),
            old(self).current_round < u32::MAX,
        ensures
            final(self).wf(),
            if round == old(self).current_round && step == old(self).current_step {
                match step {
                    Step::Propose => {
                        &&& r == Some(VoteRecord { round, step: Step::Prevote, vote: None })
                        &&& final(self).current_step == Step::Prevote
                        &&& final(self).current_round == old(self).current_round
                        &&& final(self).votes@ == old(self).votes@.push(r->Some_0)
                    },
                    Step::Prevote => {
                        &&& r == Some(VoteRecord { round, step: Step::Precommit, vote: None })
                        &&& final(self).current_step == Step::Precommit
                        &&& final(self).current_round == old(self).current_round
                        &&& final(self).votes@ == old(self).votes@.push(r->Some_0)
                    },
                    Step::Precommit => {
                        &&& r is None
                        &&& final(self).current_round == old(self).current_round + 1
                        &&& final(self).current_step == Step::Propose
                        &&& final(self).votes == old(self).votes
                    },
                }
            } else {
                r is None && *final(self) == *old(self)
            },
    {
        if !(round == self.current_round) {
            return None;
        }
        let same = match (&step, &self.current_step) {
            (Step::Propose, Step::Propose) => true,
            (Step::Prevote, Step::Prevote) => true,
            (Step::Precommit, Step::Precommit) => true,
            _ => false,
        };
        if !same {
            return None;
        }
        match step {
            Step::Propose => {
                let record = VoteRecord { round, step: Step::Prevote, vote: None };
                self.votes.push(record);
                self.current_step = Step::Prevote;
                proof {
                    Self::lemma_proposals_known_transfer(old(self), self);
                }
                Some(record)
            },
            Step::Prevote => {
                let record = VoteRecord { round, step: Step::Precommit, vote: None };
                self.votes.push(record);
                self.current_step = Step::Precommit;
                proof {
                    Self::lemma_proposals_known_transfer(old(self), self);
                }
                Some(record)
            },
            Step::Precommit => {
                self.current_round = self.current_round + 1;
                self.current_step = Step::Propose;
                proof {
                    Self::lemma_proposals_known_transfer(old(self), self);
                }
                None
            },
        }
    }

    /// Handles evidence of a future round: an aggregate for `(round,
    /// step)` carrying at least a one-third threshold of weight jumps the
    /// node forward to that round, entering at that step. Rounds never
    /// move backward.
    pub fn on_round_evidence(&mut self, round: u32, step: Step, weight: u64, threshold: u16) -> (r:
        bool)
        requires
            old(self).wf(),
        ensures
            final(self).wf(),
            r == (round > old(self).current_round && weight >= threshold),
            if r {
                &&& final(self).current_round == round
                &&& final(self).current_step == step
                &&& final(self).locked == old(self).locked
                &&& final(self).valid == old(self).valid
                &&& final(self).votes == old(self).votes
                &&& final(self).best_votes == old(self).best_votes
                &&& final(self).known_proposals == old(self).known_proposals
                &&& final(self).round_proposals == old(self).round_proposals
                &&& final(self).inherents == old(self).inherents
            } else {
                *final(self) == *old(self)
            },
    {
        if round > self.current_round && weight >= threshold as u64 {
            self.current_round = round;
            self.current_step = step;
            proof {
                Self::lemma_proposals_known_transfer(old(self), self);
                assert forall|i: int|
                    0 <= i < self.votes.len() implies (#[trigger] self.votes[i]).round
                    <= self.current_round by {
                    assert(old(self).votes[i].round <= old(self).current_round);
                };
                assert forall|i: int|
                    0 <= i < self.best_votes.len() implies (#[trigger] self.best_votes[i]).round
                    <= self.current_round by {
                    assert(old(self).best_votes[i].round <= old(self).current_round);
                };
            }
            true
        } else {
            false
        }
    }
}

} // verus!
