use albatross_core::block::{
    Block, EquivocationKind, EquivocationProof, ForkProofData, MacroBlock, MacroBody, MacroHeader,
    MicroBlock, MicroBody, MicroHeader, MultiSignature, TendermintProof,
};
use albatross_core::chain::Blockchain;
use albatross_core::events::{BlockchainEvent, PushError, PushResult};
use albatross_core::policy;
use albatross_core::slots::compute_slot_number;
use albatross_core::types::{
    Digest, DisabledSlots, ValidatorId, Validators, ValidatorSlotBand, VrfEntropy, VrfSeed,
};

fn digest(value: u64) -> Digest {
    Digest { value }
}

fn seed(value: u64) -> VrfSeed {
    VrfSeed { entropy: VrfEntropy { value } }
}

fn two_validators() -> Validators {
    Validators {
        bands: vec![
            ValidatorSlotBand { address: ValidatorId { value: 1 }, voting_key: 11, start: 0, end: 300 },
            ValidatorSlotBand { address: ValidatorId { value: 2 }, voting_key: 22, start: 300, end: 512 },
        ],
    }
}

fn genesis_block() -> Block {
    Block::Macro(MacroBlock {
        header: MacroHeader {
            block_number: 0,
            round: 0,
            timestamp: 0,
            parent_hash: digest(0),
            parent_election_hash: digest(0),
            seed: seed(7),
            state_root: digest(900),
            body_root: digest(901),
            history_root: digest(902),
            digest: digest(1000),
        },
        body: Some(MacroBody {
            validators: Some(two_validators()),
            next_batch_initial_punished_set: DisabledSlots::none_disabled(),
        }),
        justification: None,
    })
}

fn micro_block(number: u32, parent: Digest, id: u64) -> Block {
    Block::Micro(MicroBlock {
        header: MicroHeader {
            block_number: number,
            timestamp: number as u64,
            parent_hash: parent,
            seed: seed(number as u64),
            state_root: digest(900 + number as u64),
            body_root: digest(0),
            history_root: digest(0),
            digest: digest(id),
        },
        body: None,
        justification: None,
    })
}

fn macro_block(number: u32, parent: Digest, id: u64) -> Block {
    Block::Macro(MacroBlock {
        header: MacroHeader {
            block_number: number,
            round: 0,
            timestamp: number as u64,
            parent_hash: parent,
            parent_election_hash: digest(1000),
            seed: seed(number as u64),
            state_root: digest(900 + number as u64),
            body_root: digest(0),
            history_root: digest(0),
            digest: digest(id),
        },
        body: Some(MacroBody {
            validators: None,
            next_batch_initial_punished_set: DisabledSlots::none_disabled(),
        }),
        justification: Some(TendermintProof {
            round: 0,
            sig: MultiSignature { signature: 5, signers: vec![0, 1, 2] },
        }),
    })
}

fn chain_to(height: u32) -> Blockchain {
    let mut bc = Blockchain::with_genesis(genesis_block(), true).unwrap();
    let mut parent = digest(1000);
    for n in 1..=height {
        let block = if n % policy::BATCH_LENGTH == 0 {
            macro_block(n, parent, 1000 + n as u64)
        } else {
            micro_block(n, parent, 1000 + n as u64)
        };
        parent = digest(1000 + n as u64);
        let (result, _) = bc.push(block, None).unwrap();
        assert_eq!(result, PushResult::Extended);
    }
    bc
}

#[test]
fn policy_derivations() {
    assert_eq!(policy::batch_at(0), 0);
    assert_eq!(policy::batch_at(59), 0);
    assert_eq!(policy::batch_at(60), 1);
    assert_eq!(policy::epoch_at(0), 0);
    assert_eq!(policy::epoch_at(43199), 0);
    assert_eq!(policy::epoch_at(43200), 1);
    assert!(policy::is_macro_block_at(0));
    assert!(policy::is_macro_block_at(120));
    assert!(!policy::is_macro_block_at(61));
    assert!(policy::is_election_block_at(43200));
    assert!(!policy::is_election_block_at(60));
    assert_eq!(policy::macro_block_before(1), 0);
    assert_eq!(policy::macro_block_before(61), 60);
    assert_eq!(policy::macro_block_before(120), 60);
    assert_eq!(policy::election_block_of(2), Some(86400));
    assert_eq!(policy::election_block_of(u32::MAX), None);
}

#[test]
fn slot_selection_is_deterministic() {
    let disabled = DisabledSlots::none_disabled();
    let entropy = VrfEntropy { value: 0x1234_5678_9abc_def0 };
    let first = compute_slot_number(3, entropy, &disabled);
    let second = compute_slot_number(3, entropy, &disabled);
    assert_eq!(first, second);
    assert!(first < policy::SLOTS);
}

#[test]
fn slot_selection_skips_disabled_slots() {
    let entropy = VrfEntropy { value: 42 };
    let open_slot = compute_slot_number(0, entropy, &DisabledSlots::none_disabled());
    let mut disabled = DisabledSlots::none_disabled();
    disabled.flags[open_slot as usize] = true;
    let other = compute_slot_number(0, entropy, &disabled);
    assert_ne!(other, open_slot);
}

#[test]
fn band_lookup_finds_owner() {
    let validators = two_validators();
    assert_eq!(validators.get_band_from_slot(0), 0);
    assert_eq!(validators.get_band_from_slot(299), 0);
    assert_eq!(validators.get_band_from_slot(300), 1);
    assert_eq!(validators.get_band_from_slot(511), 1);
    let owner = validators.get_validator_by_slot_number(300);
    assert_eq!(owner.address, ValidatorId { value: 2 });
}

#[test]
fn extend_emits_one_extended_event() {
    let mut bc = chain_to(100);
    let block = micro_block(101, digest(1100), 1101);
    let (result, events) = bc.push(block, None).unwrap();
    assert_eq!(result, PushResult::Extended);
    assert_eq!(events, vec![BlockchainEvent::Extended(digest(1101))]);
    let added: Vec<_> = events.iter().flat_map(|e| e.added_hashes()).collect();
    assert_eq!(added, vec![digest(1101)]);
    assert_eq!(bc.block_number(), 101);
    assert_eq!(bc.head_hash(), digest(1101));
}

#[test]
fn macro_block_finalizes_its_batch() {
    let mut bc = chain_to(59);
    let block = macro_block(60, digest(1059), 1060);
    let (result, events) = bc.push(block, None).unwrap();
    assert_eq!(result, PushResult::Extended);
    assert_eq!(
        events,
        vec![
            BlockchainEvent::Extended(digest(1060)),
            BlockchainEvent::Finalized(digest(1060)),
        ],
    );
}

#[test]
fn known_orphan_and_bad_successor() {
    let mut bc = chain_to(2);
    // pushing the head again is known
    let again = micro_block(2, digest(1001), 1002);
    let (result, events) = bc.push(again, None).unwrap();
    assert_eq!(result, PushResult::Known);
    assert!(events.is_empty());
    // an unknown parent is an orphan
    let orphan = micro_block(7, digest(9999), 2007);
    assert_eq!(bc.push(orphan, None).unwrap_err(), PushError::Orphan);
    // a block that skips a height is no successor
    let skipper = micro_block(4, digest(1002), 2004);
    assert_eq!(bc.push(skipper, None).unwrap_err(), PushError::InvalidSuccessor);
    // a micro block at a macro height has the wrong kind
    let mut bc60 = chain_to(59);
    let wrong_kind = micro_block(60, digest(1059), 2060);
    assert!(matches!(bc60.push(wrong_kind, None), Err(PushError::InvalidBlock(_))));
}

#[test]
fn incomplete_accounts_demand_a_diff() {
    let mut bc = Blockchain::with_genesis(genesis_block(), false).unwrap();
    let block = micro_block(1, digest(1000), 1001);
    assert_eq!(bc.push(block, None).unwrap_err(), PushError::MissingAccountsTrieDiff);
}

#[test]
fn rebranch_adopts_the_longer_fork() {
    // head at 205 along branch A; branch B forks off at the macro-safe
    // height 200 and grows past the head
    let mut bc = chain_to(205);
    let mut parent = digest(1200);
    for n in 201..=205u32 {
        let block = micro_block(n, parent, 2000 + n as u64);
        parent = digest(2000 + n as u64);
        let (result, events) = bc.push(block, None).unwrap();
        assert_eq!(result, PushResult::Forked);
        assert_eq!(events.len(), 1);
        assert!(matches!(events[0], BlockchainEvent::Stored(_)));
    }
    // branch B's block at 206 outgrows the head
    let tip = micro_block(206, digest(2205), 2206);
    let (result, events) = bc.push(tip, None).unwrap();
    assert_eq!(result, PushResult::Rebranched);
    assert_eq!(events.len(), 1);
    match &events[0] {
        BlockchainEvent::Rebranched(adopted, reverted) => {
            let adopted_hashes: Vec<u64> = adopted.iter().map(|p| p.0.value).collect();
            let reverted_hashes: Vec<u64> = reverted.iter().map(|p| p.0.value).collect();
            assert_eq!(adopted_hashes, vec![2201, 2202, 2203, 2204, 2205, 2206]);
            assert_eq!(reverted_hashes, vec![1201, 1202, 1203, 1204, 1205]);
            // the lists share the fork point and are disjoint
            assert_eq!(adopted[0].1.parent_hash(), reverted[0].1.parent_hash());
            for (h, _) in adopted {
                assert!(!reverted_hashes.contains(&h.value));
            }
            // only micro blocks are reverted
            for (_, b) in reverted {
                assert!(!b.is_macro());
            }
        },
        other => panic!("expected a rebranch, got {other:?}"),
    }
    assert_eq!(bc.block_number(), 206);
    assert_eq!(bc.head_hash(), digest(2206));
    // the added hashes of the rebranch are exactly the adopted ones
    let added: Vec<u64> = events[0].added_hashes().iter().map(|d| d.value).collect();
    assert_eq!(added, vec![2201, 2202, 2203, 2204, 2205, 2206]);
}

#[test]
fn validators_stay_stable_while_the_epoch_runs() {
    let mut bc = chain_to(3);
    let before = bc.get_validators_for_epoch(0).unwrap();
    let mut parent = digest(1003);
    for n in 4..=10u32 {
        let block = micro_block(n, parent, 1000 + n as u64);
        parent = digest(1000 + n as u64);
        bc.push(block, None).unwrap();
    }
    let after = bc.get_validators_for_epoch(0).unwrap();
    assert_eq!(before, after);
}

#[test]
fn blocks_report_equivocations_once() {
    let proof = EquivocationProof::Fork(ForkProofData {
        validator: ValidatorId { value: 3 },
        block_number: 1,
        header1_digest: digest(51),
        header2_digest: digest(61),
    });
    let carrier = |number: u32, parent: Digest, id: u64| {
        Block::Micro(MicroBlock {
            header: MicroHeader {
                block_number: number,
                timestamp: number as u64,
                parent_hash: parent,
                seed: seed(number as u64),
                state_root: digest(900 + number as u64),
                body_root: digest(0),
                history_root: digest(0),
                digest: digest(id),
            },
            body: Some(MicroBody { equivocation_proofs: vec![proof] }),
            justification: None,
        })
    };
    let mut bc = Blockchain::with_genesis(genesis_block(), true).unwrap();
    let (result, _) = bc.push(carrier(1, digest(1000), 1001), None).unwrap();
    assert_eq!(result, PushResult::Extended);
    // a second block reporting the same misbehavior is refused
    let err = bc.push(carrier(2, digest(1001), 1002), None).unwrap_err();
    assert!(matches!(err, PushError::EquivocationAlreadyIncluded(_)));
}

#[test]
fn short_fork_is_ignored_only_past_a_macro() {
    // a fork block below the head is stored, not adopted
    let mut bc = chain_to(3);
    let fork = micro_block(1, digest(1000), 3001);
    let (result, _) = bc.push(fork, None).unwrap();
    assert_eq!(result, PushResult::Forked);
    // a fork that would revert the macro block at 60 is ignored
    let mut bc = chain_to(61);
    let mut parent = digest(1000);
    for n in 1..=59u32 {
        let block = micro_block(n, parent, 4000 + n as u64);
        parent = digest(4000 + n as u64);
        bc.push(block, None).unwrap();
    }
    let competing_macro = macro_block(60, digest(4059), 4060);
    let (result, _) = bc.push(competing_macro, None).unwrap();
    assert_eq!(result, PushResult::Forked);
    let fork_61 = micro_block(61, digest(4060), 4061);
    let (result, events) = bc.push(fork_61, None).unwrap();
    // adopting it would revert the final macro block at height 60
    assert_eq!(result, PushResult::Forked);
    assert_eq!(events.len(), 1);
    let fork_62 = micro_block(62, digest(4061), 4062);
    let (result, events) = bc.push(fork_62, None).unwrap();
    assert_eq!(result, PushResult::Ignored);
    assert!(events.is_empty());
}

#[test]
fn equivocation_proofs_deduplicate() {
    let mut bc = chain_to(1);
    let proof = EquivocationProof::Fork(ForkProofData {
        validator: ValidatorId { value: 1 },
        block_number: 1,
        header1_digest: digest(50),
        header2_digest: digest(60),
    });
    assert!(bc.submit_equivocation_proof(proof).is_ok());
    let second = bc.submit_equivocation_proof(proof).unwrap_err();
    match second {
        PushError::EquivocationAlreadyIncluded(locator) => {
            assert_eq!(locator.validator, ValidatorId { value: 1 });
            assert_eq!(locator.block_number, 1);
            assert_eq!(locator.kind, EquivocationKind::Fork);
        },
        other => panic!("expected a duplicate, got {other:?}"),
    }
    // the non-canonical twin is refused
    let twisted = EquivocationProof::Fork(ForkProofData {
        validator: ValidatorId { value: 2 },
        block_number: 1,
        header1_digest: digest(60),
        header2_digest: digest(50),
    });
    assert!(matches!(
        bc.submit_equivocation_proof(twisted),
        Err(PushError::InvalidEquivocationProof(_))
    ));
}

#[test]
fn validators_of_the_current_epoch() {
    let bc = chain_to(3);
    let current = bc.get_validators_for_epoch(0).unwrap();
    assert_eq!(current, two_validators());
    // the next epoch has no election block yet
    assert!(bc.get_validators_for_epoch(1).is_err());
}

#[test]
fn proposer_slot_matches_the_draw() {
    let bc = chain_to(3);
    let entropy = VrfEntropy { value: 99 };
    let slot = bc.get_proposer(4, 0, entropy).unwrap();
    let expected = compute_slot_number(0, entropy, &DisabledSlots::none_disabled());
    assert_eq!(slot.number, expected);
    assert!(slot.validator.start <= slot.number && slot.number < slot.validator.end);
    let band = if expected < 300 { 0 } else { 1 };
    assert_eq!(slot.band, band);
}

#[test]
fn added_hashes_of_each_event() {
    let stored = micro_block(1, digest(1000), 77);
    assert_eq!(
        BlockchainEvent::Stored(stored).added_hashes(),
        vec![digest(77)]
    );
    assert_eq!(BlockchainEvent::Extended(digest(5)).added_hashes(), vec![digest(5)]);
    assert_eq!(BlockchainEvent::HistoryAdopted(digest(6)).added_hashes(), vec![digest(6)]);
    assert!(BlockchainEvent::Finalized(digest(7)).added_hashes().is_empty());
    assert!(BlockchainEvent::EpochFinalized(digest(8)).added_hashes().is_empty());
    let pair = (digest(9), micro_block(2, digest(1), 9));
    assert_eq!(
        BlockchainEvent::Rebranched(vec![pair], vec![]).added_hashes(),
        vec![digest(9)]
    );
}
