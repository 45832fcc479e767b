use albatross_core::block::{MacroBody, MacroHeader};
use albatross_core::driver::ProtocolParams;
use albatross_core::tendermint::{
    BestVote, MacroState, RoundProposal, Step, TendermintContribution, TendermintState, VoteWeight,
};
use albatross_core::types::{Digest, DisabledSlots, VrfEntropy, VrfSeed};

fn digest(value: u64) -> Digest {
    Digest { value }
}

fn header(number: u32, id: u64) -> MacroHeader {
    MacroHeader {
        block_number: number,
        round: 0,
        timestamp: 0,
        parent_hash: digest(1),
        parent_election_hash: digest(2),
        seed: VrfSeed { entropy: VrfEntropy { value: 3 } },
        state_root: digest(4),
        body_root: digest(5),
        history_root: digest(6),
        digest: digest(id),
    }
}

fn contribution(votes: Vec<VoteWeight>) -> TendermintContribution {
    TendermintContribution { votes, signature: 123 }
}

fn params() -> ProtocolParams {
    ProtocolParams {
        n: 512,
        f: 170,
        propose_timeout_base: 1000,
        propose_timeout_delta: 500,
        prevote_timeout_base: 1000,
        prevote_timeout_delta: 500,
        precommit_timeout_base: 1000,
        precommit_timeout_delta: 500,
    }
}

#[test]
fn snapshot_round_trip() {
    let mut state = TendermintState::initial();
    state.current_round = 4;
    state.current_step = Step::Prevote;
    state.known_proposals.push((digest(9), header(120, 9)));
    state.round_proposals.push(RoundProposal {
        round: 4,
        digest: digest(9),
        valid_round: Some(2),
        signature: 77,
        signer: 3,
    });
    state.locked = Some((2, digest(9)));
    state.valid = Some((3, digest(9)));
    state.inherents.push((
        digest(9),
        MacroBody {
            validators: None,
            next_batch_initial_punished_set: DisabledSlots::none_disabled(),
        },
    ));
    let expected = state.clone();
    let snapshot = MacroState::from_tendermint_state(120, state);
    assert_eq!(snapshot.block_number, 120);
    // a stale snapshot is discarded
    let stale = snapshot.clone();
    assert_eq!(stale.into_tendermint_state(121), None);
    // the snapshot restores the very state at its own height
    let restored = snapshot.into_tendermint_state(120).unwrap();
    assert_eq!(restored, expected);
}

#[test]
fn snapshot_serves_stored_proposals() {
    let mut state = TendermintState::initial();
    state.known_proposals.push((digest(9), header(120, 9)));
    state.round_proposals.push(RoundProposal {
        round: 1,
        digest: digest(9),
        valid_round: None,
        signature: 77,
        signer: 3,
    });
    let snapshot = MacroState::from_tendermint_state(120, state);
    let sp = snapshot.get_proposal_for(120, 1, &digest(9)).unwrap();
    assert_eq!(sp.proposal, header(120, 9));
    assert_eq!(sp.round, 1);
    assert_eq!(sp.signature, 77);
    assert_eq!(sp.signer, 3);
    assert!(snapshot.get_proposal_for(121, 1, &digest(9)).is_none());
    assert!(snapshot.get_proposal_for(120, 2, &digest(9)).is_none());
    assert!(snapshot.get_proposal_for(120, 1, &digest(8)).is_none());
}

#[test]
fn round_skip_on_one_third_evidence() {
    let p = params();
    let mut state = TendermintState::initial();
    state.current_step = Step::Prevote;
    // a third of the slots already vote in round three
    let jumped = state.on_round_evidence(3, Step::Precommit, 171, p.one_third_threshold());
    assert!(jumped);
    assert_eq!(state.current_round, 3);
    assert_eq!(state.current_step, Step::Precommit);
    // rounds never move backward
    let back = state.on_round_evidence(2, Step::Propose, 512, p.one_third_threshold());
    assert!(!back);
    assert_eq!(state.current_round, 3);
}

#[test]
fn locking_rule_guards_the_prevote() {
    let p = params();
    let threshold = p.two_thirds_threshold();
    let h1 = digest(101);
    let h2 = digest(102);
    let mut state = TendermintState::initial();
    state.current_round = 3;
    state.locked = Some((2, h1));
    state.valid = Some((2, h1));
    // a proposal for another value without a certificate gets a nil vote
    assert_eq!(state.decide_prevote(3, h2, Some(2), threshold), None);
    // with a decisive prevote aggregate at the claimed round it is voted
    state.best_votes.push(BestVote {
        round: 2,
        step: Step::Prevote,
        contribution: contribution(vec![VoteWeight { proposal: Some(h2), weight: 341 }]),
    });
    assert_eq!(state.decide_prevote(3, h2, Some(2), threshold), Some(h2));
    // a certificate older than the lock does not unlock
    assert_eq!(state.decide_prevote(3, h2, Some(1), threshold), None);
    // the locked value itself is always voted
    assert_eq!(state.decide_prevote(3, h1, None, threshold), Some(h1));
    // a fresh value against a lock is not
    assert_eq!(state.decide_prevote(3, h2, None, threshold), None);
}

#[test]
fn aggregates_drive_the_round() {
    let p = params();
    let threshold = p.two_thirds_threshold();
    let h = digest(55);
    let mut state = TendermintState::initial();
    // receiving the proposal casts a prevote and enters the prevote step
    let vote = state.on_proposal(0, None, header(60, 55), h, 9, 2, threshold).unwrap();
    assert_eq!(vote, Some(h));
    assert_eq!(state.current_step, Step::Prevote);
    // a decisive prevote aggregate precommits and adopts the valid value
    let agg = contribution(vec![VoteWeight { proposal: Some(h), weight: 341 }]);
    let precommit = state.on_prevote_aggregate(0, agg, threshold).unwrap();
    assert_eq!(precommit, Some(h));
    assert_eq!(state.current_step, Step::Precommit);
    assert_eq!(state.valid, Some((0, h)));
    // a decisive precommit aggregate locks and decides
    let agg = contribution(vec![VoteWeight { proposal: Some(h), weight: 341 }]);
    let decision = state.on_precommit_aggregate(0, agg, threshold);
    assert_eq!(decision, Some(h));
    assert_eq!(state.locked, Some((0, h)));
}

#[test]
fn nil_precommit_advances_the_round() {
    let p = params();
    let threshold = p.two_thirds_threshold();
    let mut state = TendermintState::initial();
    state.current_step = Step::Precommit;
    let agg = contribution(vec![VoteWeight { proposal: None, weight: 341 }]);
    let decision = state.on_precommit_aggregate(0, agg, threshold);
    assert_eq!(decision, None);
    assert_eq!(state.current_round, 1);
    assert_eq!(state.current_step, Step::Propose);
}

#[test]
fn timeouts_move_the_state_machine() {
    let p = params();
    let mut state = TendermintState::initial();
    // a propose timeout prevotes nil
    let record = state.on_timeout(0, Step::Propose).unwrap();
    assert_eq!(record.vote, None);
    assert_eq!(state.current_step, Step::Prevote);
    // a prevote timeout precommits nil
    let record = state.on_timeout(0, Step::Prevote).unwrap();
    assert_eq!(record.vote, None);
    assert_eq!(state.current_step, Step::Precommit);
    // a precommit timeout advances the round
    assert!(state.on_timeout(0, Step::Precommit).is_none());
    assert_eq!(state.current_round, 1);
    assert_eq!(state.current_step, Step::Propose);
    // a stale timer changes nothing
    assert!(state.on_timeout(0, Step::Propose).is_none());
    assert_eq!(state.current_round, 1);
}

#[test]
fn timeouts_grow_with_the_round() {
    let p = params();
    assert_eq!(p.timeout_duration(Step::Propose, 0), 1000);
    assert_eq!(p.timeout_duration(Step::Propose, 3), 2500);
    assert_eq!(p.timeout_duration(Step::Prevote, 2), 2000);
    assert_eq!(p.timeout_duration(Step::Precommit, 4), 3000);
}

#[test]
fn aggregate_weights_are_read_back() {
    let h = digest(1);
    let agg = contribution(vec![
        VoteWeight { proposal: Some(h), weight: 300 },
        VoteWeight { proposal: None, weight: 100 },
    ]);
    assert_eq!(agg.weight_for(Some(h)), 300);
    assert_eq!(agg.weight_for(None), 100);
    assert_eq!(agg.weight_for(Some(digest(2))), 0);
    assert_eq!(agg.total_weight(), 400);
    assert_eq!(agg.find_quorum(300), Some(h));
    assert_eq!(agg.find_quorum(301), None);
}
