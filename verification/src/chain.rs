//! The chain state and the push decision.
//!
//! The blockchain owns the stored blocks, the main-chain index, the
//! validator sets of the current and previous epoch, the accounts root of
//! the head, and the deduplication index of accepted equivocation proofs.
//!
//! Validator schedule: the election macro block at height
//! `e * BLOCKS_PER_EPOCH` installs the validator set that serves every
//! block of epoch `e`, so `current_slots` always holds the validators of
//! `epoch_at(head)` and `previous_slots` those of the epoch before it.

use vstd::prelude::*;
use crate::block::{Block, EquivocationLocator, EquivocationProof};
use crate::events::{BlockError, BlockchainEvent, EquivocationProofError, ForkEvent, PushError, PushResult};
use crate::events::BlockchainError;
use crate::policy::{BATCH_LENGTH, BLOCKS_PER_EPOCH, SLOTS};
use crate::slots::{compute_slot_number, is_selected_slot, Slot};
use crate::types::{Digest, Validators, ValidatorSlotBand, VrfEntropy};

verus! {

/// The change a block makes to the accounts trie, stated as the roots
/// before and after; the accounts layer computes and checks the real trie.
#[derive(Clone, Copy, Debug, PartialEq, Eq, Structural)]
pub struct AccountsDiff {
    pub pre_root: Digest,
    pub post_root: Digest,
}

/// Reverses a walked branch into ascending order, moving its entries.
fn reverse_pairs(v: Vec<(Digest, Block)>) -> (r: Vec<(Digest, Block)>)
    ensures
        r@.len() == v@.len(),
        forall|k: int| 0 <= k < r@.len() ==> #[trigger] r@[k] == v@[v@.len() - 1 - k],
{
    let ghost v0 = v@;
    let mut rest = v;
    let mut r: Vec<(Digest, Block)> = Vec::new();
    proof {
        assert(rest@ =~= v0.take(rest@.len() as int));
    }
    loop
        invariant
            r@.len() + rest@.len() == v0.len(),
            rest@ == v0.take(rest@.len() as int),
            forall|k: int| 0 <= k < r@.len() ==> #[trigger] r@[k] == v0[v0.len() - 1 - k],
        ensures
            rest@.len() == 0,
        decreases rest.len(),
    {
        let ghost pre = rest@;
        let p = match rest.pop() {
            Some(p) => p,
            None => {
                break ;
            },
        };
        proof {
            assert(rest@ =~= v0.take(rest@.len() as int));
            assert(p == pre[pre.len() - 1]);
            assert(p == v0[pre.len() - 1]);
        }
        r.push(p);
    }
    r
}

/// Main-chain state plus the fork store.
pub struct Blockchain {
    /// Every block ever stored, main chain and forks alike; digests are
    /// unique.
    pub stored: Vec<Block>,
    /// Digest of the main-chain block at each height; the last entry is
    /// the head.
    pub main: Vec<Digest>,
    /// Validators serving the epoch of the head.
    pub current_slots: Option<Validators>,
    /// Validators that served the previous epoch, once one exists.
    pub previous_slots: Option<Validators>,
    /// Root of the accounts trie after the head block.
    pub accounts_root: Digest,
    /// Whether the local accounts trie is complete; an incomplete trie
    /// needs an explicit diff with every push.
    pub accounts_complete: bool,
    /// Locators of every accepted equivocation proof, for deduplication.
    pub equivocation_locators: Vec<EquivocationLocator>,
}

impl Blockchain {
    /// Height of the head block.
    pub open spec fn spec_head_number(&self) -> int {
        self.main.len() - 1
    }

    /// Digest of the head block.
    pub open spec fn spec_head_digest(&self) -> Digest {
        self.main[self.main.len() - 1]
    }

    /// Whether a block with digest `d` is stored.
    pub open spec fn spec_has_stored(&self, d: Digest) -> bool {
        exists|i: int| 0 <= i < self.stored.len() && self.stored[i].spec_digest() == d
    }

    /// Index of the stored block with digest `d`.
    pub open spec fn stored_index(&self, d: Digest) -> int {
        choose|i: int| 0 <= i < self.stored.len() && self.stored[i].spec_digest() == d
    }

    /// The stored block with digest `d`.
    pub open spec fn spec_stored_at(&self, d: Digest) -> Block {
        self.stored[self.stored_index(d)]
    }

    /// The main-chain block at height `h`.
    pub open spec fn spec_main_block(&self, h: int) -> Block {
        self.spec_stored_at(self.main[h])
    }

    /// Whether digest `d` is the main-chain block at height `number`.
    pub open spec fn spec_is_main(&self, number: int, d: Digest) -> bool {
        0 <= number < self.main.len() && self.main[number] == d
    }

    /// Whether the locator is already in the deduplication index.
    pub open spec fn spec_has_locator(&self, l: EquivocationLocator) -> bool {
        self.equivocation_locators@.contains(l)
    }

    /// Height of the election block whose validator set serves the head's
    /// epoch.
    pub open spec fn spec_last_election(&self) -> int {
        (self.spec_head_number() / BLOCKS_PER_EPOCH as int) * BLOCKS_PER_EPOCH as int
    }

    /// The validator bands installed by the main-chain election block at
    /// height `h`.
    pub open spec fn spec_election_validators(&self, h: int) -> Seq<ValidatorSlotBand> {
        self.spec_main_block(h)->Macro_0.body->Some_0.validators->Some_0.bands@
    }

    /// The stored block at index `i` has a stored parent one height below
    /// it.
    pub open spec fn parent_linked(&self, i: int) -> bool {
        &&& self.spec_has_stored(self.stored[i].spec_parent_hash())
        &&& self.spec_stored_at(self.stored[i].spec_parent_hash()).spec_block_number() + 1
            == self.stored[i].spec_block_number()
    }

    /// A block's kind agrees with the policy for its height: macro blocks
    /// exactly at multiples of the batch length.
    pub open spec fn block_kind_ok(b: Block) -> bool {
        (b is Macro) == (b.spec_block_number() % BATCH_LENGTH == 0)
    }

    /// Structural demands on a macro block: a body with a usable punished
    /// set, a justification above genesis, and a well-formed validator set
    /// exactly on election blocks.
    pub open spec fn macro_shape_ok(b: Block) -> bool {
        b is Macro ==> {
            let m = b->Macro_0;
            &&& m.body is Some
            &&& m.body->Some_0.next_batch_initial_punished_set.wf()
            &&& m.body->Some_0.next_batch_initial_punished_set.spec_enabled_count() > 0
            &&& m.header.block_number > 0 ==> m.justification is Some
            &&& if m.header.block_number % BLOCKS_PER_EPOCH == 0 {
                m.body->Some_0.validators is Some && m.body->Some_0.validators->Some_0.wf()
            } else {
                m.body->Some_0.validators is None
            }
        }
    }

    /// The chain invariant.
    pub open spec fn wf(&self) -> bool {
        // the main chain exists and its heights fit in a block number
        &&& 1 <= self.main.len() <= u32::MAX + 1
        // stored digests are unique
        &&& forall|i: int, j: int|
            0 <= i < j < self.stored.len() ==> self.stored[i].spec_digest()
                != self.stored[j].spec_digest()
        // every main entry is a stored block sitting at its height
        &&& forall|h: int|
            0 <= h < self.main.len() ==> self.spec_has_stored(self.main[h])
                && #[trigger] self.spec_main_block(h).spec_block_number() == h
        // the main chain is parent-linked
        &&& forall|h: int|
            1 <= h < self.main.len() ==> #[trigger] self.spec_main_block(h).spec_parent_hash()
                == self.main[h - 1]
        // every stored block has the kind and shape its height demands
        &&& forall|i: int|
            0 <= i < self.stored.len() ==> Self::block_kind_ok(#[trigger] self.stored[i])
        &&& forall|i: int|
            0 <= i < self.stored.len() ==> Self::macro_shape_ok(#[trigger] self.stored[i])
        // every stored block above genesis has a stored parent one below it
        &&& forall|i: int|
            0 <= i < self.stored.len() && self.stored[i].spec_block_number() > 0
                ==> #[trigger] self.parent_linked(i)
        // no stored block sits above the head
        &&& forall|i: int|
            0 <= i < self.stored.len() ==> #[trigger] self.stored[i].spec_block_number()
                < self.main.len()
        // genesis is unique
        &&& forall|i: int|
            0 <= i < self.stored.len() && #[trigger] self.stored[i].spec_block_number() == 0
                ==> self.stored[i].spec_digest() == self.main[0]
        // the accounts root follows the head
        &&& self.accounts_root == self.spec_main_block(self.spec_head_number()).spec_state_root()
        // the current validators are the ones the last election installed
        &&& self.current_slots is Some
        &&& self.current_slots->Some_0.wf()
        &&& self.current_slots->Some_0.bands@ == self.spec_election_validators(
            self.spec_last_election(),
        )
        // the previous validators are the ones of the election before it
        &&& if self.spec_last_election() == 0 {
            self.previous_slots is None
        } else {
            &&& self.previous_slots is Some
            &&& self.previous_slots->Some_0.wf()
            &&& self.previous_slots->Some_0.bands@ == self.spec_election_validators(
                self.spec_last_election() - BLOCKS_PER_EPOCH as int,
            )
        }
        // accepted equivocation locators are unique
        &&& forall|i: int, j: int|
            0 <= i < j < self.equivocation_locators.len() ==> self.equivocation_locators[i]
                != self.equivocation_locators[j]
    }

    /// Builds a chain from its genesis block: the election macro block at
    /// height zero. A block of any other shape is refused.
    pub fn with_genesis(genesis: Block, accounts_complete: bool) -> (r: Result<
        Blockchain,
        BlockchainError,
    >)
        ensures
            match r {
                Ok(bc) => {
                    &&& genesis is Macro
                    &&& genesis.spec_block_number() == 0
                    &&& Self::macro_shape_ok(genesis)
                    &&& bc.wf()
                    &&& bc.main@ == seq![genesis.spec_digest()]
                    &&& bc.stored@ == seq![genesis]
                    &&& bc.accounts_complete == accounts_complete
                    &&& bc.equivocation_locators@ == Seq::<EquivocationLocator>::empty()
                },
                Err(e) => {
                    &&& e == BlockchainError::InvalidGenesisBlock
                    &&& !(genesis is Macro && genesis.spec_block_number() == 0
                        && Self::macro_shape_ok(genesis))
                },
            },
    {
        let valid = match &genesis {
            Block::Macro(m) => {
                if m.header.block_number != 0 {
                    false
                } else {
                    match &m.body {
                        Some(body) => {
                            let punished_ok = body.next_batch_initial_punished_set.flags.len()
                                == SLOTS as usize
                                && body.next_batch_initial_punished_set.count_enabled() > 0;
                            let validators_ok = match &body.validators {
                                Some(v) => Self::check_validators_wf(v),
                                None => false,
                            };
                            punished_ok && validators_ok
                        },
                        None => false,
                    }
                }
            },
            Block::Micro(_) => false,
        };
        if !valid {
            return Err(BlockchainError::InvalidGenesisBlock);
        }
        let current = match &genesis {
            Block::Macro(m) => match &m.body {
                Some(body) => match &body.validators {
                    Some(v) => v.duplicate(),
                    None => vstd::pervasive::unreached(),
                },
                None => vstd::pervasive::unreached(),
            },
            Block::Micro(_) => vstd::pervasive::unreached(),
        };
        let digest = genesis.digest();
        let state_root = genesis.state_root();
        let mut stored: Vec<Block> = Vec::new();
        stored.push(genesis);
        let mut main: Vec<Digest> = Vec::new();
        main.push(digest);
        let bc = Blockchain {
            stored,
            main,
            current_slots: Some(current),
            previous_slots: None,
            accounts_root: state_root,
            accounts_complete,
            equivocation_locators: Vec::new(),
        };
        proof {
            assert(bc.stored[0].spec_digest() == bc.main[0]);
            assert(bc.spec_has_stored(bc.main[0]));
            assert(bc.stored_index(bc.main[0]) == 0);
            assert(bc.main@ =~= seq![bc.stored[0].spec_digest()]);
            assert(bc.equivocation_locators@ =~= Seq::<EquivocationLocator>::empty());
        }
        Ok(bc)
    }

    /// Checks the validator-set invariant at run time.
    pub fn check_validators_wf(v: &Validators) -> (r: bool)
        ensures
            r == v.wf(),
    {
        if v.bands.len() == 0 {
            return false;
        }
        if v.bands[0].start != 0 {
            return false;
        }
        if v.bands[v.bands.len() - 1].end != SLOTS {
            return false;
        }
        let mut i: usize = 0;
        while i < v.bands.len()
            invariant
                v.bands.len() >= 1,
                i <= v.bands.len(),
                forall|k: int| 0 <= k < i ==> v.bands[k].start < v.bands[k].end,
                forall|k: int| 0 < k < i ==> v.bands[k].start == v.bands[k - 1].end,
            decreases v.bands.len() - i,
        {
            if v.bands[i].start >= v.bands[i].end {
                return false;
            }
            if i > 0 && v.bands[i].start != v.bands[i - 1].end {
                return false;
            }
            i = i + 1;
        }
        true
    }

    /// Looking a digest up is stable across states that store the same
    /// blocks.
    pub proof fn lemma_lookup_transfer(a: &Blockchain, b: &Blockchain, d: Digest)
        requires
            a.stored@ == b.stored@,
            forall|i: int, j: int|
                0 <= i < j < a.stored.len() ==> a.stored[i].spec_digest()
                    != a.stored[j].spec_digest(),
            a.spec_has_stored(d),
        ensures
            b.spec_has_stored(d),
            b.spec_stored_at(d) == a.spec_stored_at(d),
            b.stored_index(d) == a.stored_index(d),
    {
        let i = a.stored_index(d);
        assert(a.stored[i].spec_digest() == d);
        assert(b.stored@[i].spec_digest() == d);
        let j = b.stored_index(d);
        assert(b.stored@[j].spec_digest() == d);
        if i != j {
            assert(a.stored[j].spec_digest() == d);
            assert(false);
        }
    }

    /// Chain fields (everything but the accounts flag and the locator
    /// index) agree between two states.
    pub open spec fn chain_part_eq(a: &Blockchain, b: &Blockchain) -> bool {
        &&& b.stored@ == a.stored@
        &&& b.main@ == a.main@
        &&& b.current_slots == a.current_slots
        &&& b.previous_slots == a.previous_slots
        &&& b.accounts_root == a.accounts_root
    }

    /// The main-chain clauses of the invariant carry over to a state with
    /// the same chain fields.
    proof fn lemma_transfer_main_clauses(a: &Blockchain, b: &Blockchain)
        requires
            a.wf(),
            Self::chain_part_eq(a, b),
        ensures
            forall|h: int|
                #![trigger b.main@[h]]
                0 <= h < b.main.len() ==> b.spec_has_stored(b.main[h])
                    && b.spec_main_block(h).spec_block_number() == h,
            forall|h: int|
                1 <= h < b.main.len() ==> #[trigger] b.spec_main_block(h).spec_parent_hash()
                    == b.main[h - 1],
    {
        assert forall|h: int|
            #![trigger b.main@[h]]
            0 <= h < b.main.len() implies b.spec_has_stored(b.main[h])
            && b.spec_main_block(h).spec_block_number() == h by {
            a.lemma_main_block_props(h);
            Self::lemma_lookup_transfer(a, b, a.main[h]);
        };
        assert forall|h: int| 1 <= h < b.main.len() implies #[trigger] b.spec_main_block(
            h,
        ).spec_parent_hash() == b.main[h - 1] by {
            a.lemma_main_block_props(h);
            Self::lemma_lookup_transfer(a, b, a.main[h]);
        };
    }

    /// The per-block clauses of the invariant carry over to a state with
    /// the same chain fields.
    proof fn lemma_transfer_stored_clauses(a: &Blockchain, b: &Blockchain)
        requires
            a.wf(),
            Self::chain_part_eq(a, b),
        ensures
            forall|i: int| 0 <= i < b.stored.len() ==> Self::block_kind_ok(#[trigger] b.stored[i]),
            forall|i: int| 0 <= i < b.stored.len() ==> Self::macro_shape_ok(#[trigger] b.stored[i]),
            forall|i: int|
                0 <= i < b.stored.len() && b.stored[i].spec_block_number() > 0
                    ==> #[trigger] b.parent_linked(i),
            forall|i: int|
                0 <= i < b.stored.len() ==> #[trigger] b.stored[i].spec_block_number()
                    < b.main.len(),
            forall|i: int|
                0 <= i < b.stored.len() && #[trigger] b.stored[i].spec_block_number() == 0
                    ==> b.stored[i].spec_digest() == b.main[0],
    {
        assert forall|i: int|
            0 <= i < b.stored.len() && b.stored[i].spec_block_number() > 0 implies #[trigger] b
            .parent_linked(i) by {
            assert(a.stored[i].spec_block_number() > 0);
            assert(a.parent_linked(i));
            Self::lemma_lookup_transfer(a, b, a.stored[i].spec_parent_hash());
        };
        assert forall|i: int|
            0 <= i < b.stored.len() implies Self::block_kind_ok(#[trigger] b.stored[i])
            && Self::macro_shape_ok(b.stored[i]) && b.stored[i].spec_block_number()
            < b.main.len() by {
            assert(Self::block_kind_ok(a.stored[i]));
            assert(Self::macro_shape_ok(a.stored[i]));
            assert(a.stored[i].spec_block_number() < a.main.len());
        };
        assert forall|i: int|
            0 <= i < b.stored.len() && #[trigger] b.stored[i].spec_block_number()
                == 0 implies b.stored[i].spec_digest() == b.main[0] by {
            assert(a.stored[i].spec_block_number() == 0);
            assert(a.stored[i].spec_digest() == a.main[0]);
        };
    }

    /// The head and validator clauses of the invariant carry over to a
    /// state with the same chain fields.
    #[verifier::rlimit(100)]
    proof fn lemma_transfer_state_clauses(a: &Blockchain, b: &Blockchain)
        requires
            a.wf(),
            Self::chain_part_eq(a, b),
        ensures
            b.accounts_root == b.spec_main_block(b.spec_head_number()).spec_state_root(),
            b.current_slots is Some,
            b.current_slots->Some_0.wf(),
            b.current_slots->Some_0.bands@ == b.spec_election_validators(b.spec_last_election()),
            b.spec_last_election() == 0 ==> b.previous_slots is None,
            b.spec_last_election() != 0 ==> b.previous_slots is Some
                && b.previous_slots->Some_0.wf() && b.previous_slots->Some_0.bands@
                == b.spec_election_validators(b.spec_last_election() - BLOCKS_PER_EPOCH as int),
    {
        vstd::arithmetic::div_mod::lemma_fundamental_div_mod(
            a.spec_head_number(),
            BLOCKS_PER_EPOCH as int,
        );
        vstd::arithmetic::div_mod::lemma_mod_bound(a.spec_head_number(), BLOCKS_PER_EPOCH as int);
        a.lemma_main_block_props(a.spec_head_number());
        Self::lemma_lookup_transfer(a, b, a.main[a.spec_head_number()]);
        a.lemma_main_block_props(a.spec_last_election());
        Self::lemma_lookup_transfer(a, b, a.main[a.spec_last_election()]);
        if a.spec_last_election() != 0 {
            a.lemma_main_block_props(a.spec_last_election() - BLOCKS_PER_EPOCH as int);
            Self::lemma_lookup_transfer(
                a,
                b,
                a.main[a.spec_last_election() - BLOCKS_PER_EPOCH as int],
            );
        }
    }

    /// A state that keeps the whole chain part of another well-formed
    /// state, and keeps its locator index free of duplicates, is itself
    /// well formed.
    #[verifier::rlimit(100)]
    pub proof fn lemma_wf_nonchain_update(a: &Blockchain, b: &Blockchain)
        requires
            a.wf(),
            Self::chain_part_eq(a, b),
            forall|i: int, j: int|
                0 <= i < j < b.equivocation_locators.len() ==> b.equivocation_locators[i]
                    != b.equivocation_locators[j],
        ensures
            b.wf(),
    {
        Self::lemma_transfer_main_clauses(a, b);
        Self::lemma_transfer_stored_clauses(a, b);
        Self::lemma_transfer_state_clauses(a, b);
    }

    /// The invariant's parent link of one stored block, spelled out.
    pub proof fn lemma_stored_parent(&self, i: int)
        requires
            self.wf(),
            0 <= i < self.stored.len(),
            self.stored[i].spec_block_number() > 0,
        ensures
            self.spec_has_stored(self.stored[i].spec_parent_hash()),
            self.spec_stored_at(self.stored[i].spec_parent_hash()).spec_block_number() + 1
                == self.stored[i].spec_block_number(),
    {
        assert(self.parent_linked(i));
    }

    /// What the invariant gives of the main-chain block at height `h`:
    /// it is stored, sits at its height, and has the kind and shape the
    /// height demands.
    pub proof fn lemma_main_block_props(&self, h: int)
        requires
            self.wf(),
            0 <= h < self.main.len(),
        ensures
            self.spec_has_stored(self.main[h]),
            self.spec_main_block(h).spec_block_number() == h,
            self.spec_main_block(h).spec_digest() == self.main[h],
            Self::block_kind_ok(self.spec_main_block(h)),
            Self::macro_shape_ok(self.spec_main_block(h)),
            h >= 1 ==> self.spec_main_block(h).spec_parent_hash() == self.main[h - 1],
    {
        assert(self.spec_main_block(h).spec_block_number() == h);
        let i = self.stored_index(self.main[h]);
        assert(Self::block_kind_ok(self.stored[i]));
        assert(Self::macro_shape_ok(self.stored[i]));
        if h >= 1 {
            assert(self.spec_main_block(h).spec_parent_hash() == self.main[h - 1]);
        }
    }

    /// Index of the stored block with digest `d`, if any.
    pub fn find_stored_index(&self, d: Digest) -> (r: Option<usize>)
        ensures
            match r {
                Some(i) => i < self.stored.len() && self.stored[i as int].spec_digest() == d,
                None => !self.spec_has_stored(d),
            },
    {
        let mut i: usize = 0;
        while i < self.stored.len()
            invariant
                i <= self.stored.len(),
                forall|j: int| 0 <= j < i ==> self.stored[j].spec_digest() != d,
            decreases self.stored.len() - i,
        {
            if self.stored[i].digest().value == d.value {
                return Some(i);
            }
            i = i + 1;
        }
        None
    }

    /// Height of the head block.
    pub fn block_number(&self) -> (r: u32)
        requires
            self.wf(),
        ensures
            r == self.spec_head_number(),
    {
        (self.main.len() - 1) as u32
    }

    /// Digest of the head block.
    pub fn head_hash(&self) -> (r: Digest)
        requires
            self.wf(),
        ensures
            r == self.spec_head_digest(),
    {
        self.main[self.main.len() - 1]
    }

    /// Batch of the head block.
    pub fn batch_number(&self) -> (r: u32)
        requires
            self.wf(),
        ensures
            r == self.spec_head_number() / BATCH_LENGTH as int,
    {
        crate::policy::batch_at(self.block_number())
    }

    /// Epoch of the head block.
    pub fn epoch_number(&self) -> (r: u32)
        requires
            self.wf(),
        ensures
            r == self.spec_head_number() / BLOCKS_PER_EPOCH as int,
    {
        crate::policy::epoch_at(self.block_number())
    }

    /// The main-chain block at a height, if the height is on the chain.
    pub fn get_block_at(&self, height: u32) -> (r: Result<&Block, BlockchainError>)
        requires
            self.wf(),
        ensures
            match r {
                Ok(b) => height < self.main.len() && *b == self.spec_main_block(height as int),
                Err(e) => height >= self.main.len() && e == BlockchainError::BlockNotFound(height),
            },
    {
        if (height as usize) < self.main.len() {
            proof {
                self.lemma_main_block_props(height as int);
            }
            let d = self.main[height as usize];
            match self.find_stored_index(d) {
                Some(i) => {
                    proof {
                        let si = self.stored_index(d);
                        assert(self.stored[si].spec_digest() == d);
                        if si != i {
                            assert(self.stored[i as int].spec_digest()
                                == self.stored[si].spec_digest());
                        }
                    }
                    Ok(&self.stored[i])
                },
                None => {
                    proof {
                        assert(self.spec_main_block(height as int).spec_block_number()
                            == height as int);
                        assert(false);
                    }
                    Err(BlockchainError::InconsistentState)
                },
            }
        } else {
            Err(BlockchainError::BlockNotFound(height))
        }
    }

    /// The validator set that the head's epoch serves blocks with.
    pub fn current_validators(&self) -> (r: Option<&Validators>)
        requires
            self.wf(),
        ensures
            match r {
                Some(v) => v.bands@ == self.spec_election_validators(self.spec_last_election()),
                None => false,
            },
    {
        match &self.current_slots {
            Some(v) => Some(v),
            None => {
                proof {
                    assert(false);
                }
                None
            },
        }
    }

    /// Gets the active validators for a given epoch.
    ///
    /// The current and the previous epoch are served from the chain state;
    /// an older epoch is read back from its election block in the store.
    /// Epoch zero below the current one is refused as invalid, like an
    /// epoch whose election height overflows a block number; an epoch
    /// whose election block is not yet on the chain is not found.
    pub fn get_validators_for_epoch(&self, epoch: u32) -> (r: Result<Validators, BlockchainError>)
        requires
            self.wf(),
        ensures
            ({
                let current_epoch = self.spec_head_number() / BLOCKS_PER_EPOCH as int;
                match r {
                    Ok(v) => {
                        &&& epoch <= current_epoch
                        &&& epoch > 0 || current_epoch <= 1
                        &&& v.wf()
                        &&& v.bands@ == self.spec_election_validators(
                            epoch as int * BLOCKS_PER_EPOCH as int,
                        )
                    },
                    Err(BlockchainError::InvalidEpoch) => {
                        &&& epoch != current_epoch
                        &&& epoch as int + 1 != current_epoch
                        &&& (epoch == 0 || epoch as int * BLOCKS_PER_EPOCH as int > u32::MAX)
                    },
                    Err(BlockchainError::BlockNotFound(h)) => {
                        &&& epoch > current_epoch
                        &&& epoch as int * BLOCKS_PER_EPOCH as int <= u32::MAX
                        &&& h == epoch * BLOCKS_PER_EPOCH
                    },
                    Err(_) => false,
                }
            }),
    {
        let current_epoch = crate::policy::epoch_at(self.block_number());
        if epoch == current_epoch {
            match &self.current_slots {
                Some(v) => Ok(v.duplicate()),
                None => {
                    proof {
                        assert(false);
                    }
                    Err(BlockchainError::NoValidatorsFound)
                },
            }
        } else if current_epoch > 0 && epoch == current_epoch - 1 {
            proof {
                // the head has passed at least one whole epoch, so a
                // previous set exists
                assert(self.spec_head_number() >= BLOCKS_PER_EPOCH as int) by {
                    vstd::arithmetic::div_mod::lemma_fundamental_div_mod(
                        self.spec_head_number(),
                        BLOCKS_PER_EPOCH as int,
                    );
                };
                assert(self.spec_last_election() >= BLOCKS_PER_EPOCH as int) by {
                    vstd::arithmetic::div_mod::lemma_fundamental_div_mod(
                        self.spec_head_number(),
                        BLOCKS_PER_EPOCH as int,
                    );
                };
            }
            match &self.previous_slots {
                Some(v) => Ok(v.duplicate()),
                None => {
                    proof {
                        assert(false);
                    }
                    Err(BlockchainError::NoValidatorsFound)
                },
            }
        } else if epoch == 0 {
            Err(BlockchainError::InvalidEpoch)
        } else {
            let height = match epoch.checked_mul(BLOCKS_PER_EPOCH) {
                Some(h) => h,
                None => {
                    return Err(BlockchainError::InvalidEpoch);
                },
            };
            let block = match self.get_block_at(height) {
                Ok(b) => b,
                Err(_) => {
                    proof {
                        self.lemma_epoch_order(epoch, height);
                    }
                    return Err(BlockchainError::BlockNotFound(height));
                },
            };
            proof {
                self.lemma_epoch_order(epoch, height);
                self.lemma_main_block_props(height as int);
                vstd::arithmetic::div_mod::lemma_mod_multiples_basic(
                    epoch as int,
                    BLOCKS_PER_EPOCH as int,
                );
                crate::policy::lemma_blocks_per_epoch();
                vstd::arithmetic::div_mod::lemma_mod_breakdown(
                    height as int,
                    BATCH_LENGTH as int,
                    720int,
                );
                vstd::arithmetic::div_mod::lemma_mod_bound(
                    height as int / BATCH_LENGTH as int,
                    720int,
                );
                vstd::arithmetic::div_mod::lemma_mod_bound(height as int, BATCH_LENGTH as int);
            }
            match block {
                Block::Macro(m) => match &m.body {
                    Some(body) => match &body.validators {
                        Some(v) => Ok(v.duplicate()),
                        None => {
                            proof {
                                assert(false);
                            }
                            Err(BlockchainError::NoValidatorsFound)
                        },
                    },
                    None => {
                        proof {
                            assert(false);
                        }
                        Err(BlockchainError::BlockBodyNotFound)
                    },
                },
                Block::Micro(_) => {
                    proof {
                        assert(false);
                    }
                    Err(BlockchainError::BlockIsNotMacro)
                },
            }
        }
    }

    /// The proposer slot of `(block_number, offset)`: the slot drawn from
    /// the given entropy, skipping the slots the last preceding macro
    /// block punished, owned by the matching validator of the block's
    /// epoch.
    pub fn get_proposer(&self, block_number: u32, offset: u32, vrf_entropy: VrfEntropy) -> (r:
        Result<Slot, BlockchainError>)
        requires
            self.wf(),
            block_number > 0,
        ensures
            ({
                let mb = ((block_number - 1) as int / BATCH_LENGTH as int) * BATCH_LENGTH as int;
                let epoch = block_number as int / BLOCKS_PER_EPOCH as int;
                let current_epoch = self.spec_head_number() / BLOCKS_PER_EPOCH as int;
                match r {
                    Ok(slot) => {
                        let flags =
                            self.spec_main_block(mb)->Macro_0.body->Some_0
                            .next_batch_initial_punished_set.flags@;
                        let bands = self.spec_election_validators(
                            epoch * BLOCKS_PER_EPOCH as int,
                        );
                        &&& mb < self.main.len()
                        &&& epoch <= current_epoch
                        &&& is_selected_slot(offset, vrf_entropy, flags, slot.number)
                        &&& slot.band < bands.len()
                        &&& bands[slot.band as int] == slot.validator
                        &&& slot.validator.start <= slot.number < slot.validator.end
                    },
                    Err(BlockchainError::BlockNotFound(h)) => {
                        ||| h == mb && mb >= self.main.len()
                        ||| (mb < self.main.len() && epoch > current_epoch && h == epoch
                            * BLOCKS_PER_EPOCH as int)
                    },
                    Err(BlockchainError::InvalidEpoch) => {
                        &&& mb < self.main.len()
                        &&& epoch == 0
                        &&& current_epoch >= 2
                    },
                    Err(_) => false,
                }
            }),
    {
        // Fetch the latest macro block preceding the given height; its
        // punished set governs slot selection for the following batch, so
        // an offline validator keeps its slots until the batch ends.
        let mb = crate::policy::macro_block_before(block_number);
        let macro_block = match self.get_block_at(mb) {
            Ok(b) => b,
            Err(_) => {
                return Err(BlockchainError::BlockNotFound(mb));
            },
        };
        proof {
            self.lemma_main_block_props(mb as int);
        }
        let disabled_slots = match macro_block {
            Block::Macro(m) => match &m.body {
                Some(body) => &body.next_batch_initial_punished_set,
                None => {
                    proof {
                        assert(false);
                    }
                    return Err(BlockchainError::BlockBodyNotFound);
                },
            },
            Block::Micro(_) => {
                proof {
                    assert(false);
                }
                return Err(BlockchainError::BlockIsNotMacro);
            },
        };
        // Compute the slot number of the proposer.
        let slot_number = compute_slot_number(offset, vrf_entropy, disabled_slots);
        // Fetch the validators active in the block's epoch.
        let epoch_number = crate::policy::epoch_at(block_number);
        let validators = match self.get_validators_for_epoch(epoch_number) {
            Ok(v) => v,
            Err(e) => {
                proof {
                    // the epoch of a block number never overflows the
                    // election height
                    vstd::arithmetic::div_mod::lemma_fundamental_div_mod(
                        block_number as int,
                        BLOCKS_PER_EPOCH as int,
                    );
                    vstd::arithmetic::div_mod::lemma_mod_bound(
                        block_number as int,
                        BLOCKS_PER_EPOCH as int,
                    );
                }
                return Err(e);
            },
        };
        // Get the validator that owns the proposer slot, and its band.
        let band = validators.get_band_from_slot(slot_number);
        let validator = validators.bands[band];
        proof {
            validators.lemma_band_count();
        }
        Ok(Slot { number: slot_number, band: band as u16, validator })
    }

    /// Whether a locator is already in the deduplication index.
    pub fn contains_locator(&self, locator: &EquivocationLocator) -> (r: bool)
        ensures
            r == self.spec_has_locator(*locator),
    {
        let mut i: usize = 0;
        while i < self.equivocation_locators.len()
            invariant
                i <= self.equivocation_locators.len(),
                forall|j: int| 0 <= j < i ==> self.equivocation_locators[j] != *locator,
            decreases self.equivocation_locators.len() - i,
        {
            if self.equivocation_locators[i] == *locator {
                return true;
            }
            i = i + 1;
        }
        false
    }

    /// Accepts an equivocation proof into the deduplication index.
    ///
    /// A valid unseen proof is always accepted; a duplicate is refused
    /// with its locator so the caller can drop gossiped copies; a
    /// non-canonical proof is refused. Fork proofs raise a fork event.
    pub fn submit_equivocation_proof(&mut self, proof_data: EquivocationProof) -> (r: Result<
        Option<ForkEvent>,
        PushError,
    >)
        requires
            old(self).wf(),
        ensures
            final(self).wf(),
            match r {
                Ok(ev) => {
                    &&& proof_data.spec_is_canonical()
                    &&& !old(self).spec_has_locator(proof_data.spec_locator())
                    &&& final(self).equivocation_locators@
                        == old(self).equivocation_locators@.push(proof_data.spec_locator())
                    &&& final(self).stored == old(self).stored
                    &&& final(self).main == old(self).main
                    &&& final(self).current_slots == old(self).current_slots
                    &&& final(self).previous_slots == old(self).previous_slots
                    &&& final(self).accounts_root == old(self).accounts_root
                    &&& match ev {
                        Some(ForkEvent::Detected(d)) => proof_data == EquivocationProof::Fork(d),
                        None => !(proof_data is Fork),
                    }
                },
                Err(PushError::InvalidEquivocationProof(e)) => {
                    &&& !proof_data.spec_is_canonical()
                    &&& e == EquivocationProofError::NonCanonicalOrder
                    &&& *final(self) == *old(self)
                },
                Err(PushError::EquivocationAlreadyIncluded(l)) => {
                    &&& proof_data.spec_is_canonical()
                    &&& old(self).spec_has_locator(proof_data.spec_locator())
                    &&& l == proof_data.spec_locator()
                    &&& *final(self) == *old(self)
                },
                Err(_) => false,
            },
    {
        if !proof_data.is_canonical() {
            return Err(
                PushError::InvalidEquivocationProof(EquivocationProofError::NonCanonicalOrder),
            );
        }
        let locator = proof_data.locator();
        if self.contains_locator(&locator) {
            return Err(PushError::EquivocationAlreadyIncluded(locator));
        }
        self.equivocation_locators.push(locator);
        proof {
            let oldl = old(self).equivocation_locators@;
            let newl = self.equivocation_locators@;
            assert forall|i: int, j: int| 0 <= i < j < newl.len() implies newl[i] != newl[j] by {
                if j == newl.len() - 1 {
                    assert(oldl[i] == newl[i]);
                    assert(!oldl.contains(locator));
                } else {
                    assert(oldl[i] != oldl[j]);
                }
            };
            Self::lemma_wf_nonchain_update(old(self), self);
        }
        match proof_data {
            EquivocationProof::Fork(d) => Ok(Some(ForkEvent::Detected(d))),
            EquivocationProof::DoubleProposal(_) => Ok(None),
            EquivocationProof::DoubleVote(_) => Ok(None),
        }
    }

    /// Height of the latest macro block at or below the head; everything
    /// above it may still be reverted, everything at or below it is final.
    pub open spec fn spec_last_macro(&self) -> int {
        (self.spec_head_number() / BATCH_LENGTH as int) * BATCH_LENGTH as int
    }

    /// The structural fault of a single block, if any: macro blocks need a
    /// body with a usable punished set, a justification, and a well-formed
    /// validator set exactly when they are election blocks.
    pub open spec fn shape_error(b: Block) -> Option<BlockError> {
        match b {
            Block::Micro(_) => None,
            Block::Macro(m) => if m.body is None {
                Some(BlockError::MissingBody)
            } else if m.justification is None {
                Some(BlockError::MissingJustification)
            } else if !(m.body->Some_0.next_batch_initial_punished_set.wf()
                && m.body->Some_0.next_batch_initial_punished_set.spec_enabled_count() > 0) {
                Some(BlockError::InvalidBlockType)
            } else if m.header.block_number % BLOCKS_PER_EPOCH == 0 {
                if m.body->Some_0.validators is Some && m.body->Some_0.validators->Some_0.wf() {
                    None
                } else {
                    Some(BlockError::MissingBody)
                }
            } else {
                if m.body->Some_0.validators is None {
                    None
                } else {
                    Some(BlockError::InvalidBlockType)
                }
            },
        }
    }

    /// The equivocation proofs a block reports.
    pub open spec fn block_proofs(b: Block) -> Seq<EquivocationProof> {
        match b {
            Block::Micro(mb) => match mb.body {
                Some(body) => body.equivocation_proofs@,
                None => Seq::empty(),
            },
            Block::Macro(_) => Seq::empty(),
        }
    }

    /// The locators of a sequence of proofs.
    pub open spec fn locators_of(proofs: Seq<EquivocationProof>) -> Seq<EquivocationLocator> {
        proofs.map_values(|p: EquivocationProof| p.spec_locator())
    }

    /// The first fault among the proofs from position `i` on: a
    /// non-canonical proof, or one whose locator was already accepted or
    /// appears earlier in the same block.
    pub open spec fn spec_equiv_error(
        index: Seq<EquivocationLocator>,
        proofs: Seq<EquivocationProof>,
        i: int,
    ) -> Option<PushError>
        decreases proofs.len() - i,
        when 0 <= i <= proofs.len()
    {
        if i >= proofs.len() {
            None
        } else if !proofs[i].spec_is_canonical() {
            Some(PushError::InvalidEquivocationProof(EquivocationProofError::NonCanonicalOrder))
        } else if index.contains(proofs[i].spec_locator()) || (exists|j: int|
            0 <= j < i && proofs[j].spec_locator() == proofs[i].spec_locator()) {
            Some(PushError::EquivocationAlreadyIncluded(proofs[i].spec_locator()))
        } else {
            Self::spec_equiv_error(index, proofs, i + 1)
        }
    }

    /// When the check passes, every proof is canonical and every locator
    /// fresh, also against the ones before it in the same block.
    pub proof fn lemma_equiv_ok(
        index: Seq<EquivocationLocator>,
        proofs: Seq<EquivocationProof>,
        i: int,
    )
        requires
            0 <= i <= proofs.len(),
            Self::spec_equiv_error(index, proofs, i) is None,
        ensures
            forall|k: int|
                i <= k < proofs.len() ==> (#[trigger] proofs[k].spec_is_canonical())
                    && !index.contains(proofs[k].spec_locator()) && forall|j: int|
                    0 <= j < k ==> proofs[j].spec_locator() != proofs[k].spec_locator(),
        decreases proofs.len() - i,
    {
        if i < proofs.len() {
            Self::lemma_equiv_ok(index, proofs, i + 1);
            assert forall|k: int|
                i <= k < proofs.len() implies (#[trigger] proofs[k].spec_is_canonical())
                && !index.contains(proofs[k].spec_locator()) && forall|j: int|
                0 <= j < k ==> proofs[j].spec_locator() != proofs[k].spec_locator() by {
                if k > i {
                    assert(proofs[k].spec_is_canonical());
                    assert forall|j: int|
                        0 <= j < k implies proofs[j].spec_locator() != proofs[k].spec_locator() by {
                        if j >= i {
                        } else {
                        }
                    };
                }
            };
        }
    }

    /// Runs the equivocation check of one block body against the index.
    fn check_equivocation_proofs(&self, proofs: &Vec<EquivocationProof>) -> (r: Option<PushError>)
        ensures
            r == Self::spec_equiv_error(self.equivocation_locators@, proofs@, 0),
    {
        let ghost index = self.equivocation_locators@;
        let mut i: usize = 0;
        while i < proofs.len()
            invariant
                i <= proofs.len(),
                index == self.equivocation_locators@,
                Self::spec_equiv_error(index, proofs@, 0) == Self::spec_equiv_error(
                    index,
                    proofs@,
                    i as int,
                ),
            decreases proofs.len() - i,
        {
            let p = &proofs[i];
            if !p.is_canonical() {
                return Some(
                    PushError::InvalidEquivocationProof(EquivocationProofError::NonCanonicalOrder),
                );
            }
            let locator = p.locator();
            if self.contains_locator(&locator) {
                return Some(PushError::EquivocationAlreadyIncluded(locator));
            }
            let mut j: usize = 0;
            while j < i
                invariant
                    j <= i < proofs.len(),
                    index == self.equivocation_locators@,
                    locator == proofs@[i as int].spec_locator(),
                    proofs@[i as int].spec_is_canonical(),
                    !index.contains(locator),
                    Self::spec_equiv_error(index, proofs@, 0) == Self::spec_equiv_error(
                        index,
                        proofs@,
                        i as int,
                    ),
                    forall|k: int|
                        0 <= k < j ==> proofs@[k].spec_locator() != proofs@[i as int].spec_locator(),
                decreases i - j,
            {
                if proofs[j].locator() == locator {
                    proof {
                        let jj = j as int;
                        assert(0 <= jj < i && proofs@[jj].spec_locator() == proofs@[
                            i as int
                        ].spec_locator());
                        assert(exists|k: int|
                            0 <= k < i && proofs@[k].spec_locator() == proofs@[
                                i as int
                            ].spec_locator());
                        assert(index.contains(proofs@[i as int].spec_locator()) || (exists|k: int|
                            0 <= k < i as int && proofs@[k].spec_locator() == proofs@[
                                i as int
                            ].spec_locator()));
                        assert(Self::spec_equiv_error(index, proofs@, i as int) == Some(
                            PushError::EquivocationAlreadyIncluded(proofs@[i as int].spec_locator()),
                        ));
                    }
                    return Some(PushError::EquivocationAlreadyIncluded(locator));
                }
                j = j + 1;
            }
            proof {
                assert(!(exists|k: int|
                    0 <= k < i && proofs@[k].spec_locator() == proofs@[i as int].spec_locator()));
                assert(Self::spec_equiv_error(index, proofs@, i as int) == Self::spec_equiv_error(
                    index,
                    proofs@,
                    i + 1int,
                ));
            }
            i = i + 1;
        }
        None
    }

    /// Appends the locators of a checked block body to the index.
    fn register_proofs(&mut self, proofs: &Vec<EquivocationProof>)
        requires
            Self::spec_equiv_error(old(self).equivocation_locators@, proofs@, 0) is None,
            forall|i: int, j: int|
                0 <= i < j < old(self).equivocation_locators.len()
                    ==> old(self).equivocation_locators[i] != old(self).equivocation_locators[j],
        ensures
            final(self).equivocation_locators@ == old(self).equivocation_locators@
                + Self::locators_of(proofs@),
            forall|i: int, j: int|
                0 <= i < j < final(self).equivocation_locators.len()
                    ==> final(self).equivocation_locators[i]
                    != final(self).equivocation_locators[j],
            final(self).stored == old(self).stored,
            final(self).main == old(self).main,
            final(self).current_slots == old(self).current_slots,
            final(self).previous_slots == old(self).previous_slots,
            final(self).accounts_root == old(self).accounts_root,
            final(self).accounts_complete == old(self).accounts_complete,
    {
        proof {
            Self::lemma_equiv_ok(old(self).equivocation_locators@, proofs@, 0);
        }
        let ghost index = old(self).equivocation_locators@;
        let mut i: usize = 0;
        while i < proofs.len()
            invariant
                i <= proofs.len(),
                Self::spec_equiv_error(index, proofs@, 0) is None,
                forall|k: int|
                    0 <= k < proofs.len() ==> (#[trigger] proofs@[k].spec_is_canonical())
                        && !index.contains(proofs@[k].spec_locator()) && forall|j: int|
                        0 <= j < k ==> proofs@[j].spec_locator() != proofs@[k].spec_locator(),
                self.equivocation_locators@ == index + Self::locators_of(proofs@.take(i as int)),
                forall|a: int, b: int|
                    0 <= a < b < self.equivocation_locators.len()
                        ==> self.equivocation_locators[a] != self.equivocation_locators[b],
                self.stored == old(self).stored,
                self.main == old(self).main,
                self.current_slots == old(self).current_slots,
                self.previous_slots == old(self).previous_slots,
                self.accounts_root == old(self).accounts_root,
                self.accounts_complete == old(self).accounts_complete,
            decreases proofs.len() - i,
        {
            let locator = proofs[i].locator();
            self.equivocation_locators.push(locator);
            proof {
                assert(proofs@.take(i + 1int).map_values(|p: EquivocationProof| p.spec_locator())
                    =~= proofs@.take(i as int).map_values(
                    |p: EquivocationProof| p.spec_locator(),
                ).push(locator));
                assert(self.equivocation_locators@ =~= index + Self::locators_of(
                    proofs@.take(i + 1int),
                ));
                let newl = self.equivocation_locators@;
                assert forall|a: int, b: int|
                    0 <= a < b < newl.len() implies newl[a] != newl[b] by {
                    if b == newl.len() - 1 {
                        assert(proofs@[i as int].spec_is_canonical());
                        if a < index.len() {
                            assert(!index.contains(proofs@[i as int].spec_locator()));
                            assert(index[a] == newl[a]);
                        } else {
                            let ja = a - index.len();
                            assert(newl[a] == proofs@.take(i as int).map_values(
                                |p: EquivocationProof| p.spec_locator(),
                            )[ja]);
                            assert(newl[a] == proofs@[ja].spec_locator());
                            assert(proofs@[ja].spec_locator()
                                != proofs@[i as int].spec_locator());
                        }
                    }
                };
            }
            i = i + 1;
        }
        proof {
            assert(proofs@.take(proofs@.len() as int) =~= proofs@);
        }
    }

    /// Link `k` of a fork branch: entry `k` points at entry `k - 1`.
    pub open spec fn fork_link(&self, ds: Seq<Digest>, k: int) -> bool {
        self.spec_stored_at(ds[k]).spec_parent_hash() == ds[k - 1]
    }

    /// A sequence of stored fork-branch digests that climbs from just
    /// above the main-chain fork point at height `fp` up to the parent of
    /// a block at height `tip_number`: each entry sits off the main chain
    /// at its height and each points at the one before it.
    pub open spec fn is_fork_path(
        &self,
        ds: Seq<Digest>,
        fp: int,
        tip_parent: Digest,
        tip_number: int,
    ) -> bool {
        &&& 0 <= fp < self.main.len()
        &&& ds.len() == tip_number - fp - 1
        &&& forall|k: int|
            0 <= k < ds.len() ==> self.spec_has_stored(#[trigger] ds[k]) && self.spec_stored_at(
                ds[k],
            ).spec_digest() == ds[k] && self.spec_stored_at(ds[k]).spec_block_number() == fp + 1 + k
                && !self.spec_is_main(fp + 1 + k, ds[k])
        &&& forall|k: int| 1 <= k < ds.len() ==> #[trigger] self.fork_link(ds, k)
        &&& if ds.len() > 0 {
            self.spec_stored_at(ds[0]).spec_parent_hash() == self.main[fp] && tip_parent == ds[
                ds.len() - 1]
        } else {
            tip_parent == self.main[fp]
        }
    }

    /// Walks the fork branch from a stored parent block down to the main
    /// chain: returns the fork point and the branch top first.
    #[verifier::rlimit(100)]
    fn walk_to_main(&self, tip_parent: Digest, tip_number: u32) -> (r: (u32, Vec<(Digest, Block)>))
        requires
            self.wf(),
            self.spec_has_stored(tip_parent),
            self.spec_stored_at(tip_parent).spec_block_number() + 1 == tip_number,
        ensures
            ({
                let (fp, rev) = r;
                &&& fp < tip_number
                &&& self.spec_is_main(fp as int, if rev@.len() > 0 {
                    self.spec_stored_at(rev@[rev@.len() - 1].0).spec_parent_hash()
                } else {
                    tip_parent
                })
                &&& rev@.len() == tip_number - 1 - fp
                &&& forall|k: int|
                    0 <= k < rev@.len() ==> {
                        let d = (#[trigger] rev@[k]).0;
                        &&& self.spec_has_stored(d)
                        &&& self.spec_stored_at(d).spec_digest() == d
                        &&& self.spec_stored_at(d).spec_block_number() == tip_number - 1 - k
                        &&& !self.spec_is_main(tip_number - 1 - k, d)
                        &&& Block::header_eq(self.spec_stored_at(d), rev@[k].1)
                    }
                &&& forall|k: int|
                    0 <= k < rev@.len() - 1 ==> self.spec_stored_at(
                        (#[trigger] rev@[k]).0,
                    ).spec_parent_hash() == rev@[k + 1].0
                &&& rev@.len() > 0 ==> rev@[0].0 == tip_parent
                &&& (if rev@.len() > 0 {
                    self.spec_stored_at(rev@[rev@.len() - 1].0).spec_parent_hash()
                } else {
                    tip_parent
                }) == self.main[fp as int]
            }),
    {
        let mut rev: Vec<(Digest, Block)> = Vec::new();
        let mut cur: Digest = tip_parent;
        let mut cur_number: u32 = tip_number - 1;
        loop
            invariant
                self.wf(),
                self.spec_has_stored(cur),
                self.spec_stored_at(cur).spec_digest() == cur,
                self.spec_stored_at(cur).spec_block_number() == cur_number,
                cur_number < tip_number,
                rev@.len() == tip_number - 1 - cur_number,
                forall|k: int|
                    0 <= k < rev@.len() ==> {
                        let d = (#[trigger] rev@[k]).0;
                        &&& self.spec_has_stored(d)
                        &&& self.spec_stored_at(d).spec_digest() == d
                        &&& self.spec_stored_at(d).spec_block_number() == tip_number - 1 - k
                        &&& !self.spec_is_main(tip_number - 1 - k, d)
                        &&& Block::header_eq(self.spec_stored_at(d), rev@[k].1)
                    },
                forall|k: int|
                    0 <= k < rev@.len() - 1 ==> self.spec_stored_at(
                        (#[trigger] rev@[k]).0,
                    ).spec_parent_hash() == rev@[k + 1].0,
                rev@.len() > 0 ==> rev@[0].0 == tip_parent && self.spec_stored_at(
                    rev@[rev@.len() - 1].0,
                ).spec_parent_hash() == cur,
                rev@.len() == 0 ==> cur == tip_parent,
            ensures
                self.spec_is_main(cur_number as int, cur),
            decreases cur_number,
        {
            let i = match self.find_stored_index(cur) {
                Some(i) => i,
                None => {
                    proof {
                        assert(false);
                    }
                    vstd::pervasive::unreached()
                },
            };
            proof {
                let si = self.stored_index(cur);
                if si != i as int {
                    assert(self.stored[si].spec_digest() == self.stored[i as int].spec_digest());
                }
            }
            if (cur_number as usize) < self.main.len() && self.main[cur_number as usize].value
                == cur.value {
                // reached the main chain: `cur` is the fork point
                break ;
            }
            proof {
                // a non-main block is never at height zero, so the walk
                // can step to the parent
                if cur_number == 0 {
                    assert(self.stored[i as int].spec_digest() == self.main[0]);
                    assert(false);
                }
                self.lemma_stored_parent(i as int);
            }
            let block_copy = self.stored[i].duplicate();
            let parent = self.stored[i].parent_hash();
            rev.push((cur, block_copy));
            cur = parent;
            cur_number = cur_number - 1;
        }
        (cur_number, rev)
    }

    /// Walks the fork branch from a stored parent block down to the main
    /// chain and returns the fork point and the branch, bottom first.
    #[verifier::rlimit(100)]
    fn collect_fork_path(&self, tip_parent: Digest, tip_number: u32) -> (r: (u32, Vec<(
        Digest,
        Block,
    )>))
        requires
            self.wf(),
            self.spec_has_stored(tip_parent),
            self.spec_stored_at(tip_parent).spec_block_number() + 1 == tip_number,
        ensures
            ({
                let (fp, pairs) = r;
                let ds = pairs@.map_values(|p: (Digest, Block)| p.0);
                &&& self.is_fork_path(ds, fp as int, tip_parent, tip_number as int)
                &&& forall|k: int|
                    0 <= k < pairs@.len() ==> Block::header_eq(
                        self.spec_stored_at(ds[k]),
                        (#[trigger] pairs@[k]).1,
                    )
            }),
    {
        let (fp, rev) = self.walk_to_main(tip_parent, tip_number);
        let ghost rev0 = rev@;
        let ghost total = rev@.len();
        let pairs = reverse_pairs(rev);
        proof {
            let ds = pairs@.map_values(|p: (Digest, Block)| p.0);
            assert forall|k: int|
                0 <= k < ds.len() implies self.spec_has_stored(#[trigger] ds[k])
                && self.spec_stored_at(ds[k]).spec_digest() == ds[k] && self.spec_stored_at(
                ds[k],
            ).spec_block_number() == fp + 1 + k && !self.spec_is_main(fp + 1 + k, ds[k])
                && Block::header_eq(self.spec_stored_at(ds[k]), pairs@[k].1) by {
                assert(pairs@[k] == rev0[total - 1 - k]);
            };
            assert forall|k: int| 1 <= k < ds.len() implies #[trigger] self.fork_link(ds, k) by {
                assert(pairs@[k] == rev0[total - 1 - k]);
                assert(pairs@[k - 1] == rev0[total - k]);
            };
            if ds.len() > 0 {
                assert(pairs@[ds.len() - 1] == rev0[0]);
                assert(pairs@[0] == rev0[total - 1]);
            }
        }
        (fp, pairs)
    }

    /// The fault a push of `block` runs into, if any, in the order the
    /// checks are made: an unknown parent, a wrong successor height, a
    /// kind that disagrees with the height, a malformed macro block, a bad
    /// or duplicate equivocation proof, and, when the block extends the
    /// head, a missing or mismatched accounts diff. A block that is
    /// already stored is never a fault.
    pub open spec fn spec_push_error(&self, block: Block, diff: Option<AccountsDiff>) -> Option<
        PushError,
    > {
        if self.spec_has_stored(block.spec_digest()) {
            None
        } else if !self.spec_has_stored(block.spec_parent_hash()) {
            Some(PushError::Orphan)
        } else {
            let parent = self.spec_stored_at(block.spec_parent_hash());
            if block.spec_block_number() != parent.spec_block_number() + 1 {
                Some(PushError::InvalidSuccessor)
            } else if !Self::block_kind_ok(block) {
                Some(PushError::InvalidBlock(BlockError::InvalidBlockType))
            } else if Self::shape_error(block) is Some {
                Some(PushError::InvalidBlock(Self::shape_error(block)->Some_0))
            } else if Self::spec_equiv_error(
                self.equivocation_locators@,
                Self::block_proofs(block),
                0,
            ) is Some {
                Self::spec_equiv_error(self.equivocation_locators@, Self::block_proofs(block), 0)
            } else if block.spec_parent_hash() == self.spec_head_digest() {
                if !self.accounts_complete && diff is None {
                    Some(PushError::MissingAccountsTrieDiff)
                } else if diff is Some && (diff->Some_0.pre_root != parent.spec_state_root()
                    || diff->Some_0.post_root != block.spec_state_root()) {
                    Some(PushError::InvalidBlock(BlockError::StateRootMismatch))
                } else {
                    None
                }
            } else {
                None
            }
        }
    }

    /// The finalization events a newly adopted block appends after the
    /// event that adopted it.
    pub open spec fn adoption_suffix(block: Block) -> Seq<BlockchainEvent> {
        let d = block.spec_digest();
        if block.spec_block_number() % BLOCKS_PER_EPOCH == 0 {
            seq![BlockchainEvent::Finalized(d), BlockchainEvent::EpochFinalized(d)]
        } else if block.spec_block_number() % BATCH_LENGTH == 0 {
            seq![BlockchainEvent::Finalized(d)]
        } else {
            Seq::empty()
        }
    }

    /// How the validator sets move when `block` becomes the head: an
    /// election block installs its set and retires the current one;
    /// any other block leaves both alone.
    pub open spec fn slots_rotation_ok(a: &Blockchain, b: &Blockchain, block: Block) -> bool {
        if block.spec_block_number() % BLOCKS_PER_EPOCH == 0 {
            &&& b.current_slots is Some
            &&& b.current_slots->Some_0.bands@
                == block->Macro_0.body->Some_0.validators->Some_0.bands@
            &&& b.previous_slots is Some
            &&& b.previous_slots->Some_0.bands@ == a.current_slots->Some_0.bands@
        } else {
            &&& b.current_slots == a.current_slots
            &&& b.previous_slots == a.previous_slots
        }
    }

    /// State and events after a push extended the head with `block`.
    pub open spec fn extended_post(
        a: &Blockchain,
        b: &Blockchain,
        block: Block,
        ev: Seq<BlockchainEvent>,
    ) -> bool {
        &&& block.spec_parent_hash() == a.spec_head_digest()
        &&& b.stored@ == a.stored@.push(block)
        &&& b.main@ == a.main@.push(block.spec_digest())
        &&& b.spec_head_digest() == block.spec_digest()
        &&& b.spec_head_number() == a.spec_head_number() + 1
        &&& b.accounts_root == block.spec_state_root()
        &&& b.equivocation_locators@ == a.equivocation_locators@ + Self::locators_of(
            Self::block_proofs(block),
        )
        &&& Self::slots_rotation_ok(a, b, block)
        &&& ev == seq![BlockchainEvent::Extended(block.spec_digest())] + Self::adoption_suffix(
            block,
        )
    }

    /// State and events after a push stored `block` on a losing fork.
    pub open spec fn forked_post(
        a: &Blockchain,
        b: &Blockchain,
        block: Block,
        ev: Seq<BlockchainEvent>,
    ) -> bool {
        &&& b.stored@ == a.stored@.push(block)
        &&& b.main@ == a.main@
        &&& b.current_slots == a.current_slots
        &&& b.previous_slots == a.previous_slots
        &&& b.accounts_root == a.accounts_root
        &&& b.equivocation_locators@ == a.equivocation_locators@ + Self::locators_of(
            Self::block_proofs(block),
        )
        &&& ev.len() == 1
        &&& (ev[0] matches BlockchainEvent::Stored(bl) && Block::header_eq(block, bl))
    }

    /// State and events after a push rebranched to the fork that `block`
    /// completes: the main chain above the fork point `fp` is reverted and
    /// the fork branch `ds` plus `block` adopted in its place.
    pub open spec fn rebranched_post(
        a: &Blockchain,
        b: &Blockchain,
        block: Block,
        ds: Seq<Digest>,
        fp: int,
        ev: Seq<BlockchainEvent>,
    ) -> bool {
        &&& b.stored@ == a.stored@.push(block)
        &&& b.main@ == a.main@.take(fp + 1) + ds + seq![block.spec_digest()]
        &&& b.spec_head_digest() == block.spec_digest()
        &&& b.spec_head_number() == block.spec_block_number()
        &&& b.accounts_root == block.spec_state_root()
        &&& b.equivocation_locators@ == a.equivocation_locators@ + Self::locators_of(
            Self::block_proofs(block),
        )
        &&& Self::slots_rotation_ok(a, b, block)
        &&& ev.len() == 1 + Self::adoption_suffix(block).len()
        &&& ev.skip(1) == Self::adoption_suffix(block)
        &&& (ev[0] matches BlockchainEvent::Rebranched(ap, rv) && {
            let aps = ap@;
            let rvs = rv@;
            &&& aps.len() == ds.len() + 1
            &&& (forall|k: int|
                0 <= k < ds.len() ==> (#[trigger] aps[k]).0 == ds[k] && Block::header_eq(
                    a.spec_stored_at(ds[k]),
                    aps[k].1,
                ))
            &&& aps[ds.len() as int].0 == block.spec_digest()
            &&& Block::header_eq(block, aps[ds.len() as int].1)
            &&& rvs.len() == a.spec_head_number() - fp
            &&& (forall|k: int|
                0 <= k < rvs.len() ==> (#[trigger] rvs[k]).0 == a.main@[fp + 1 + k]
                    && Block::header_eq(a.spec_main_block(fp + 1 + k), rvs[k].1))
        })
    }

    /// Looking a digest up is stable when the store grows by a fresh
    /// block, and the fresh block is found under its own digest.
    pub proof fn lemma_lookup_extend(a: &Blockchain, b: &Blockchain, nb: Block, d: Digest)
        requires
            b.stored@ == a.stored@.push(nb),
            !a.spec_has_stored(nb.spec_digest()),
            forall|i: int, j: int|
                0 <= i < j < a.stored.len() ==> a.stored[i].spec_digest()
                    != a.stored[j].spec_digest(),
            a.spec_has_stored(d) || d == nb.spec_digest(),
        ensures
            b.spec_has_stored(d),
            d != nb.spec_digest() ==> b.spec_stored_at(d) == a.spec_stored_at(d),
            d == nb.spec_digest() ==> b.spec_stored_at(d) == nb,
    {
        if d == nb.spec_digest() {
            assert(b.stored@[b.stored.len() - 1].spec_digest() == d);
            let j = b.stored_index(d);
            assert(b.stored@[j].spec_digest() == d);
            if j < a.stored.len() {
                assert(a.stored[j].spec_digest() == d);
                assert(false);
            }
        } else {
            let i = a.stored_index(d);
            assert(a.stored[i].spec_digest() == d);
            assert(b.stored@[i].spec_digest() == d);
            let j = b.stored_index(d);
            assert(b.stored@[j].spec_digest() == d);
            if j != i {
                if j < a.stored.len() {
                    assert(a.stored[j].spec_digest() == d);
                    assert(false);
                } else {
                    assert(false);
                }
            }
        }
    }

    /// The store keeps unique digests when a fresh block is pushed.
    pub proof fn lemma_unique_extend(a: &Blockchain, b: &Blockchain, nb: Block)
        requires
            b.stored@ == a.stored@.push(nb),
            !a.spec_has_stored(nb.spec_digest()),
            forall|i: int, j: int|
                0 <= i < j < a.stored.len() ==> a.stored[i].spec_digest()
                    != a.stored[j].spec_digest(),
        ensures
            forall|i: int, j: int|
                0 <= i < j < b.stored.len() ==> b.stored[i].spec_digest()
                    != b.stored[j].spec_digest(),
    {
        assert forall|i: int, j: int|
            0 <= i < j < b.stored.len() implies b.stored[i].spec_digest()
            != b.stored[j].spec_digest() by {
            if j == b.stored.len() - 1 {
                if b.stored[i].spec_digest() == nb.spec_digest() {
                    assert(a.stored[i].spec_digest() == nb.spec_digest());
                    assert(false);
                }
            } else {
                assert(a.stored[i].spec_digest() != a.stored[j].spec_digest());
            }
        };
    }

    /// Fields of a store extension shared by every accepting push: the
    /// fresh block is appended to the store and the locator index stays
    /// duplicate-free.
    pub open spec fn store_extended(a: &Blockchain, b: &Blockchain, nb: Block) -> bool {
        &&& b.stored@ == a.stored@.push(nb)
        &&& !a.spec_has_stored(nb.spec_digest())
        &&& forall|i: int, j: int|
            0 <= i < j < b.equivocation_locators.len() ==> b.equivocation_locators[i]
                != b.equivocation_locators[j]
    }

    /// The per-block clauses of the invariant hold after a fresh,
    /// well-shaped block joined the store.
    proof fn lemma_extend_stored(a: &Blockchain, b: &Blockchain, nb: Block)
        requires
            a.wf(),
            Self::store_extended(a, b, nb),
            Self::block_kind_ok(nb),
            Self::macro_shape_ok(nb),
            1 <= nb.spec_block_number() < b.main.len(),
            b.main.len() >= a.main.len(),
            b.main@[0] == a.main@[0],
            a.spec_has_stored(nb.spec_parent_hash()),
            a.spec_stored_at(nb.spec_parent_hash()).spec_block_number() + 1
                == nb.spec_block_number(),
        ensures
            forall|i: int, j: int|
                0 <= i < j < b.stored.len() ==> b.stored[i].spec_digest()
                    != b.stored[j].spec_digest(),
            forall|i: int| 0 <= i < b.stored.len() ==> Self::block_kind_ok(#[trigger] b.stored[i]),
            forall|i: int| 0 <= i < b.stored.len() ==> Self::macro_shape_ok(#[trigger] b.stored[i]),
            forall|i: int|
                0 <= i < b.stored.len() && b.stored[i].spec_block_number() > 0
                    ==> #[trigger] b.parent_linked(i),
            forall|i: int|
                0 <= i < b.stored.len() ==> #[trigger] b.stored[i].spec_block_number()
                    < b.main.len(),
            forall|i: int|
                0 <= i < b.stored.len() && #[trigger] b.stored[i].spec_block_number() == 0
                    ==> b.stored[i].spec_digest() == b.main[0],
    {
        Self::lemma_unique_extend(a, b, nb);
        assert forall|i: int|
            0 <= i < b.stored.len() implies Self::block_kind_ok(#[trigger] b.stored[i])
            && Self::macro_shape_ok(b.stored[i]) && b.stored[i].spec_block_number() < b.main.len()
            && (b.stored[i].spec_block_number() == 0 ==> b.stored[i].spec_digest()
            == b.main[0]) by {
            if i < a.stored.len() {
                assert(Self::block_kind_ok(a.stored[i]));
                assert(Self::macro_shape_ok(a.stored[i]));
                assert(a.stored[i].spec_block_number() < a.main.len());
                assert(a.stored[i].spec_block_number() == 0 ==> a.stored[i].spec_digest()
                    == a.main[0]);
            }
        };
        assert forall|i: int|
            0 <= i < b.stored.len() && b.stored[i].spec_block_number() > 0 implies #[trigger] b
            .parent_linked(i) by {
            if i < a.stored.len() {
                assert(a.parent_linked(i));
                Self::lemma_lookup_extend(a, b, nb, a.stored[i].spec_parent_hash());
            } else {
                Self::lemma_lookup_extend(a, b, nb, nb.spec_parent_hash());
            }
        };
    }

    /// The main-chain clauses of the invariant hold when the main chain is
    /// untouched and the store grows by a fresh block.
    proof fn lemma_storepush_main(a: &Blockchain, b: &Blockchain, nb: Block)
        requires
            a.wf(),
            Self::store_extended(a, b, nb),
            b.main@ == a.main@,
        ensures
            forall|h: int|
                #![trigger b.main@[h]]
                0 <= h < b.main.len() ==> b.spec_has_stored(b.main[h])
                    && b.spec_main_block(h).spec_block_number() == h && b.spec_main_block(h)
                    == a.spec_main_block(h) && (h >= 1 ==> b.spec_main_block(h).spec_parent_hash()
                    == b.main[h - 1]),
    {
        assert forall|h: int|
            #![trigger b.main@[h]]
            0 <= h < b.main.len() implies b.spec_has_stored(b.main[h]) && b.spec_main_block(
            h,
        ).spec_block_number() == h && b.spec_main_block(h) == a.spec_main_block(h) && (h >= 1
            ==> b.spec_main_block(h).spec_parent_hash() == b.main[h - 1]) by {
            a.lemma_main_block_props(h);
            Self::lemma_lookup_extend(a, b, nb, a.main[h]);
        };
    }

    /// The main-chain clauses of the invariant hold after a fork branch
    /// and a fresh head replaced the upper main chain.
    proof fn lemma_adopt_main(a: &Blockchain, b: &Blockchain, nb: Block, ds: Seq<Digest>, fp: int)
        requires
            a.wf(),
            Self::store_extended(a, b, nb),
            b.main@ == a.main@.take(fp + 1) + ds + seq![nb.spec_digest()],
            nb.spec_block_number() == a.spec_head_number() + 1,
            a.is_fork_path(ds, fp, nb.spec_parent_hash(), nb.spec_block_number() as int),
        ensures
            b.main@.len() == nb.spec_block_number() + 1,
            forall|h: int|
                #![trigger b.main@[h]]
                0 <= h < b.main.len() ==> b.spec_has_stored(b.main[h]) && b.spec_main_block(
                    h,
                ).spec_block_number() == h,
            forall|h: int|
                1 <= h < b.main.len() ==> #[trigger] b.spec_main_block(h).spec_parent_hash()
                    == b.main[h - 1],
            forall|h: int|
                #![trigger b.main@[h]]
                0 <= h <= fp ==> b.main@[h] == a.main@[h] && b.spec_main_block(h)
                    == a.spec_main_block(h),
            b.spec_main_block(nb.spec_block_number() as int) == nb,
    {
        let number = nb.spec_block_number() as int;
        assert forall|h: int|
            #![trigger b.main@[h]]
            0 <= h <= fp implies b.main@[h] == a.main@[h] && b.spec_main_block(h)
            == a.spec_main_block(h) by {
            a.lemma_main_block_props(h);
            Self::lemma_lookup_extend(a, b, nb, a.main[h]);
        };
        assert forall|h: int|
            #![trigger b.main@[h]]
            0 <= h < b.main.len() implies b.spec_has_stored(b.main[h]) && b.spec_main_block(
            h,
        ).spec_block_number() == h && (h >= 1 ==> b.spec_main_block(h).spec_parent_hash()
            == b.main[h - 1]) by {
            if h <= fp {
                a.lemma_main_block_props(h);
                Self::lemma_lookup_extend(a, b, nb, a.main[h]);
                if h >= 1 {
                    assert(b.main@[h - 1] == a.main@[h - 1]);
                }
            } else if h < number {
                assert(b.main@[h] == ds[h - fp - 1]);
                assert(a.spec_has_stored(ds[h - fp - 1]));
                Self::lemma_lookup_extend(a, b, nb, ds[h - fp - 1]);
                if h == fp + 1 {
                    a.lemma_main_block_props(fp);
                    assert(b.main@[fp] == a.main@[fp]);
                } else {
                    assert(a.fork_link(ds, h - fp - 1));
                    assert(b.main@[h - 1] == ds[h - fp - 2]);
                }
            } else {
                assert(h == number);
                assert(b.main@[h] == nb.spec_digest());
                Self::lemma_lookup_extend(a, b, nb, nb.spec_digest());
                if ds.len() > 0 {
                    assert(nb.spec_parent_hash() == ds[ds.len() - 1]);
                    assert(b.main@[h - 1] == ds[ds.len() - 1]);
                } else {
                    a.lemma_main_block_props(fp);
                    assert(b.main@[fp] == a.main@[fp]);
                }
            }
        };
        Self::lemma_lookup_extend(a, b, nb, nb.spec_digest());
        assert forall|h: int|
            #![trigger b.main@[h]]
            0 <= h < b.main.len() implies b.spec_has_stored(b.main[h]) && b.spec_main_block(
            h,
        ).spec_block_number() == h by {
            assert(b.main@[h] == b.main@[h]);
        };
        assert forall|h: int| 1 <= h < b.main.len() implies #[trigger] b.spec_main_block(
            h,
        ).spec_parent_hash() == b.main[h - 1] by {
            assert(b.main@[h] == b.main@[h]);
        };
    }

    /// Where the serving election heights sit when the head advances by
    /// one block over a fork point that is at or above the last final
    /// macro height.
    proof fn lemma_election_heights(head: int, fp: int, number: int)
        requires
            head >= 0,
            number == head + 1,
            (head / BATCH_LENGTH as int) * BATCH_LENGTH as int <= fp <= head,
        ensures
            ({
                let bpe = BLOCKS_PER_EPOCH as int;
                let le = (head / bpe) * bpe;
                &&& 0 <= le <= fp
                &&& number % bpe == 0 ==> (number / bpe) * bpe == number && le == number - bpe
                &&& number % bpe != 0 ==> (number / bpe) * bpe == le
                &&& le != 0 ==> le - bpe <= fp
            }),
    {
        let bpe = BLOCKS_PER_EPOCH as int;
        let le = (head / bpe) * bpe;
        vstd::arithmetic::div_mod::lemma_fundamental_div_mod(head, bpe);
        vstd::arithmetic::div_mod::lemma_mod_bound(head, bpe);
        assert(le % 60 == 0) by {
            let q = head / bpe;
            assert(q * 43200 == (q * 720) * 60) by (nonlinear_arith);
            vstd::arithmetic::div_mod::lemma_mod_multiples_basic(q * 720, 60);
        };
        crate::policy::lemma_div_mul_le(head, bpe);
        crate::policy::lemma_multiple_le_div_mul(le, head, BATCH_LENGTH as int);
        crate::policy::lemma_div_succ(head, bpe);
    }

    /// The head, accounts and validator clauses of the invariant hold
    /// after a fresh block was adopted as the new head.
    proof fn lemma_adopt_state(a: &Blockchain, b: &Blockchain, nb: Block, fp: int)
        requires
            a.main.len() >= 1,
            a.current_slots is Some,
            a.current_slots->Some_0.wf(),
            a.current_slots->Some_0.bands@ == a.spec_election_validators(a.spec_last_election()),
            a.spec_last_election() == 0 ==> a.previous_slots is None,
            a.spec_last_election() != 0 ==> a.previous_slots is Some
                && a.previous_slots->Some_0.wf() && a.previous_slots->Some_0.bands@
                == a.spec_election_validators(a.spec_last_election() - BLOCKS_PER_EPOCH as int),
            nb.spec_block_number() == a.spec_head_number() + 1,
            b.main@.len() == nb.spec_block_number() + 1,
            b.spec_main_block(nb.spec_block_number() as int) == nb,
            (a.spec_head_number() / BATCH_LENGTH as int) * BATCH_LENGTH as int <= fp
                <= a.spec_head_number(),
            b.spec_main_block(a.spec_last_election()) == a.spec_main_block(
                a.spec_last_election(),
            ),
            a.spec_last_election() != 0 ==> b.spec_main_block(
                a.spec_last_election() - BLOCKS_PER_EPOCH as int,
            ) == a.spec_main_block(a.spec_last_election() - BLOCKS_PER_EPOCH as int),
            Self::block_kind_ok(nb),
            Self::macro_shape_ok(nb),
            Self::slots_rotation_ok(a, b, nb),
            b.accounts_root == nb.spec_state_root(),
        ensures
            b.accounts_root == b.spec_main_block(b.spec_head_number()).spec_state_root(),
            b.current_slots is Some,
            b.current_slots->Some_0.wf(),
            b.current_slots->Some_0.bands@ == b.spec_election_validators(b.spec_last_election()),
            b.spec_last_election() == 0 ==> b.previous_slots is None,
            b.spec_last_election() != 0 ==> b.previous_slots is Some
                && b.previous_slots->Some_0.wf() && b.previous_slots->Some_0.bands@
                == b.spec_election_validators(b.spec_last_election() - BLOCKS_PER_EPOCH as int),
    {
        let number = nb.spec_block_number() as int;
        let head_a = a.spec_head_number();
        let bpe = BLOCKS_PER_EPOCH as int;
        assert(b.spec_head_number() == number);
        let le_a = a.spec_last_election();
        Self::lemma_election_heights(head_a, fp, number);
        let le_b = b.spec_last_election();
        if number % bpe == 0 {
            assert(le_b == number);
            assert(le_a == number - bpe);
        } else {
            assert(le_b == le_a);
        }
    }

    /// The head, accounts and validator clauses of the invariant hold
    /// when neither the main chain nor the sets changed.
    proof fn lemma_storepush_state(a: &Blockchain, b: &Blockchain, nb: Block)
        requires
            a.wf(),
            Self::store_extended(a, b, nb),
            b.main@ == a.main@,
            b.current_slots == a.current_slots,
            b.previous_slots == a.previous_slots,
            b.accounts_root == a.accounts_root,
        ensures
            b.accounts_root == b.spec_main_block(b.spec_head_number()).spec_state_root(),
            b.current_slots is Some,
            b.current_slots->Some_0.wf(),
            b.current_slots->Some_0.bands@ == b.spec_election_validators(b.spec_last_election()),
            b.spec_last_election() == 0 ==> b.previous_slots is None,
            b.spec_last_election() != 0 ==> b.previous_slots is Some
                && b.previous_slots->Some_0.wf() && b.previous_slots->Some_0.bands@
                == b.spec_election_validators(b.spec_last_election() - BLOCKS_PER_EPOCH as int),
    {
        vstd::arithmetic::div_mod::lemma_fundamental_div_mod(
            a.spec_head_number(),
            BLOCKS_PER_EPOCH as int,
        );
        vstd::arithmetic::div_mod::lemma_mod_bound(a.spec_head_number(), BLOCKS_PER_EPOCH as int);
        a.lemma_main_block_props(a.spec_head_number());
        Self::lemma_lookup_extend(a, b, nb, a.main[a.spec_head_number()]);
        a.lemma_main_block_props(a.spec_last_election());
        Self::lemma_lookup_extend(a, b, nb, a.main[a.spec_last_election()]);
        if a.spec_last_election() != 0 {
            a.lemma_main_block_props(a.spec_last_election() - BLOCKS_PER_EPOCH as int);
            Self::lemma_lookup_extend(
                a,
                b,
                nb,
                a.main[a.spec_last_election() - BLOCKS_PER_EPOCH as int],
            );
        }
    }

    /// Storing a fresh, well-shaped block on a fork keeps the chain well
    /// formed.
    proof fn lemma_wf_store_push(a: &Blockchain, b: &Blockchain, nb: Block)
        requires
            a.wf(),
            Self::store_extended(a, b, nb),
            b.main@ == a.main@,
            b.current_slots == a.current_slots,
            b.previous_slots == a.previous_slots,
            b.accounts_root == a.accounts_root,
            Self::block_kind_ok(nb),
            Self::macro_shape_ok(nb),
            1 <= nb.spec_block_number() < a.main.len(),
            a.spec_has_stored(nb.spec_parent_hash()),
            a.spec_stored_at(nb.spec_parent_hash()).spec_block_number() + 1
                == nb.spec_block_number(),
        ensures
            b.wf(),
    {
        Self::lemma_extend_stored(a, b, nb);
        Self::lemma_storepush_main(a, b, nb);
        Self::lemma_storepush_state(a, b, nb);
        assert forall|h: int| 0 <= h < b.main.len() implies b.spec_has_stored(b.main[h])
            && #[trigger] b.spec_main_block(h).spec_block_number() == h by {
            assert(b.main@[h] == a.main@[h]);
        };
        assert forall|h: int| 1 <= h < b.main.len() implies #[trigger] b.spec_main_block(
            h,
        ).spec_parent_hash() == b.main[h - 1] by {
            assert(b.main@[h] == a.main@[h]);
        };
    }

    /// Adopting a fresh block as the new head, over the fork branch `ds`
    /// from fork point `fp`, keeps the chain well formed. Extending is the
    /// special case of an empty branch with the head as fork point.
    #[verifier::rlimit(100)]
    proof fn lemma_wf_adopt(a: &Blockchain, b: &Blockchain, nb: Block, ds: Seq<Digest>, fp: int)
        requires
            a.wf(),
            Self::store_extended(a, b, nb),
            b.main@ == a.main@.take(fp + 1) + ds + seq![nb.spec_digest()],
            b.accounts_root == nb.spec_state_root(),
            Self::block_kind_ok(nb),
            Self::macro_shape_ok(nb),
            nb.spec_block_number() == a.spec_head_number() + 1,
            a.is_fork_path(ds, fp, nb.spec_parent_hash(), nb.spec_block_number() as int),
            fp >= a.spec_last_macro(),
            Self::slots_rotation_ok(a, b, nb),
        ensures
            b.wf(),
            b.spec_head_digest() == nb.spec_digest(),
            b.spec_head_number() == nb.spec_block_number(),
    {
        Self::lemma_adopt_main(a, b, nb, ds, fp);
        if ds.len() > 0 {
            assert(a.spec_has_stored(ds[ds.len() - 1]));
        } else {
            a.lemma_main_block_props(fp);
        }
        Self::lemma_extend_stored(a, b, nb);
        Self::lemma_election_heights(
            a.spec_head_number(),
            fp,
            nb.spec_block_number() as int,
        );
        assert(b.main@[a.spec_last_election()] == a.main@[a.spec_last_election()]);
        if a.spec_last_election() != 0 {
            assert(b.main@[a.spec_last_election() - BLOCKS_PER_EPOCH as int] == a.main@[
                a.spec_last_election() - BLOCKS_PER_EPOCH as int]);
        }
        Self::lemma_adopt_state(a, b, nb, fp);
    }

    /// The validator set an election block installs, copied out of its
    /// body; `None` for every other block.
    fn extract_validators(block: &Block, is_election: bool) -> (r: Option<Validators>)
        ensures
            match r {
                Some(v) => {
                    &&& is_election
                    &&& block is Macro
                    &&& block->Macro_0.body is Some
                    &&& block->Macro_0.body->Some_0.validators is Some
                    &&& v.bands@ == block->Macro_0.body->Some_0.validators->Some_0.bands@
                },
                None => !(is_election && block is Macro && block->Macro_0.body is Some
                    && block->Macro_0.body->Some_0.validators is Some),
            },
    {
        if !is_election {
            return None;
        }
        match block {
            Block::Macro(m) => match &m.body {
                Some(body) => match &body.validators {
                    Some(v) => Some(v.duplicate()),
                    None => None,
                },
                None => None,
            },
            Block::Micro(_) => None,
        }
    }

    /// The main-chain blocks strictly above the fork point, bottom first:
    /// the segment a rebranch reverts.
    fn collect_reverted(&self, fp: u32) -> (rv: Vec<(Digest, Block)>)
        requires
            self.wf(),
            fp < self.main.len(),
        ensures
            rv@.len() == self.spec_head_number() - fp,
            forall|k: int|
                0 <= k < rv@.len() ==> (#[trigger] rv@[k]).0 == self.main@[fp + 1 + k]
                    && Block::header_eq(self.spec_main_block(fp + 1 + k), rv@[k].1),
    {
        let mut rv: Vec<(Digest, Block)> = Vec::new();
        let mut h: usize = fp as usize + 1;
        while h < self.main.len()
            invariant
                self.wf(),
                fp as int + 1 <= h <= self.main.len(),
                rv@.len() == h - fp - 1,
                forall|k: int|
                    0 <= k < rv@.len() ==> (#[trigger] rv@[k]).0 == self.main@[fp + 1 + k]
                        && Block::header_eq(self.spec_main_block(fp + 1 + k), rv@[k].1),
            decreases self.main.len() - h,
        {
            proof {
                self.lemma_main_block_props(h as int);
            }
            let d = self.main[h];
            let i = match self.find_stored_index(d) {
                Some(i) => i,
                None => {
                    proof {
                        assert(false);
                    }
                    vstd::pervasive::unreached()
                },
            };
            proof {
                let si = self.stored_index(d);
                if si != i as int {
                    assert(self.stored[si].spec_digest() == self.stored[i as int].spec_digest());
                }
            }
            rv.push((d, self.stored[i].duplicate()));
            h = h + 1;
        }
        rv
    }

    /// Pushes a block onto the chain.
    ///
    /// A block that is already stored is `Known`. A block whose parent is
    /// unknown, whose height or kind is wrong, whose macro shape is
    /// incomplete, whose reported equivocation proofs fail the
    /// deduplication rules, or whose accounts diff is missing or
    /// mismatched, is refused and the state left untouched. Otherwise the
    /// block either extends the head, is stored on a losing fork, causes a
    /// rebranch onto a longer fork, or is ignored when adopting it would
    /// revert a final macro block. The returned events describe exactly
    /// what happened, in order.
    #[verifier::rlimit(100)]
    pub fn push(&mut self, block: Block, diff: Option<AccountsDiff>) -> (r: Result<
        (PushResult, Vec<BlockchainEvent>),
        PushError,
    >)
        requires
            old(self).wf(),
        ensures
            final(self).wf(),
            final(self).accounts_complete == old(self).accounts_complete,
            match r {
                Err(e) => {
                    &&& old(self).spec_push_error(block, diff) == Some(e)
                    &&& *final(self) == *old(self)
                },
                Ok((res, ev)) => {
                    &&& old(self).spec_push_error(block, diff) is None
                    &&& if old(self).spec_has_stored(block.spec_digest()) {
                        &&& res == PushResult::Known
                        &&& ev@ == Seq::<BlockchainEvent>::empty()
                        &&& *final(self) == *old(self)
                    } else if block.spec_parent_hash() == old(self).spec_head_digest() {
                        &&& res == PushResult::Extended
                        &&& Self::extended_post(old(self), final(self), block, ev@)
                    } else if block.spec_block_number() <= old(self).spec_head_number() {
                        &&& res == PushResult::Forked
                        &&& Self::forked_post(old(self), final(self), block, ev@)
                    } else {
                        &&& (res == PushResult::Rebranched || res == PushResult::Ignored)
                        &&& (exists|ds: Seq<Digest>, fp: int|
                            {
                                &&& #[trigger] old(self).is_fork_path(
                                    ds,
                                    fp,
                                    block.spec_parent_hash(),
                                    block.spec_block_number() as int,
                                )
                                &&& (res == PushResult::Rebranched <==> fp >= old(
                                    self,
                                ).spec_last_macro())
                                &&& (res == PushResult::Rebranched ==> Self::rebranched_post(
                                    old(self),
                                    final(self),
                                    block,
                                    ds,
                                    fp,
                                    ev@,
                                ))
                            })
                        &&& (res == PushResult::Ignored ==> ev@
                            == Seq::<BlockchainEvent>::empty() && *final(self) == *old(self))
                    }
                },
            },
    {
        let digest = block.digest();
        // a stored block is known, whatever else it looks like
        if self.find_stored_index(digest).is_some() {
            return Ok((PushResult::Known, Vec::new()));
        }
        proof {
            if self.spec_has_stored(digest) {
                let si = self.stored_index(digest);
                assert(self.stored[si].spec_digest() == digest);
                assert(false);
            }
        }
        // the parent must be stored
        let parent_hash = block.parent_hash();
        let parent_index = match self.find_stored_index(parent_hash) {
            Some(i) => i,
            None => {
                return Err(PushError::Orphan);
            },
        };
        proof {
            let si = self.stored_index(parent_hash);
            if si != parent_index as int {
                assert(self.stored[si].spec_digest() == self.stored[
                    parent_index as int].spec_digest());
            }
        }
        let parent_number = self.stored[parent_index].block_number();
        let number = block.block_number();
        // the block must sit one above its parent
        if !(parent_number < u32::MAX && number == parent_number + 1) {
            return Err(PushError::InvalidSuccessor);
        }
        // the kind must match the height
        let macro_height = crate::policy::is_macro_block_at(number);
        if block.is_macro() != macro_height {
            return Err(PushError::InvalidBlock(BlockError::InvalidBlockType));
        }
        // macro blocks must be complete
        match &block {
            Block::Micro(_) => {},
            Block::Macro(m) => {
                match &m.body {
                    None => {
                        return Err(PushError::InvalidBlock(BlockError::MissingBody));
                    },
                    Some(body) => {
                        if m.justification.is_none() {
                            return Err(PushError::InvalidBlock(BlockError::MissingJustification));
                        }
                        if !(body.next_batch_initial_punished_set.flags.len() == SLOTS as usize
                            && body.next_batch_initial_punished_set.count_enabled() > 0) {
                            return Err(PushError::InvalidBlock(BlockError::InvalidBlockType));
                        }
                        if crate::policy::is_election_block_at(number) {
                            let ok = match &body.validators {
                                Some(v) => Self::check_validators_wf(v),
                                None => false,
                            };
                            if !ok {
                                return Err(PushError::InvalidBlock(BlockError::MissingBody));
                            }
                        } else {
                            if body.validators.is_some() {
                                return Err(PushError::InvalidBlock(BlockError::InvalidBlockType));
                            }
                        }
                    },
                }
            },
        }
        proof {
            assert(Self::shape_error(block) is None);
        }
        // the reported equivocation proofs must be canonical and unseen
        match &block {
            Block::Micro(mb) => match &mb.body {
                Some(body) => match self.check_equivocation_proofs(&body.equivocation_proofs) {
                    Some(e) => {
                        return Err(e);
                    },
                    None => {},
                },
                None => {},
            },
            Block::Macro(_) => {},
        }
        proof {
            assert(Self::spec_equiv_error(
                self.equivocation_locators@,
                Self::block_proofs(block),
                0,
            ) is None);
        }
        let head_digest = self.head_hash();
        let head_number = self.block_number();
        let is_election = crate::policy::is_election_block_at(number);
        if parent_hash.value == head_digest.value {
            // the block extends the head
            if !self.accounts_complete && diff.is_none() {
                return Err(PushError::MissingAccountsTrieDiff);
            }
            let parent_state_root = self.stored[parent_index].state_root();
            match &diff {
                Some(d) => {
                    if !(d.pre_root.value == parent_state_root.value && d.post_root.value
                        == block.state_root().value) {
                        return Err(PushError::InvalidBlock(BlockError::StateRootMismatch));
                    }
                },
                None => {},
            }
            let state_root = block.state_root();
            let new_validators = Self::extract_validators(&block, is_election);
            let mut ev: Vec<BlockchainEvent> = Vec::new();
            ev.push(BlockchainEvent::Extended(digest));
            if macro_height {
                ev.push(BlockchainEvent::Finalized(digest));
            }
            if is_election {
                ev.push(BlockchainEvent::EpochFinalized(digest));
            }
            match &block {
                Block::Micro(mb) => match &mb.body {
                    Some(body) => self.register_proofs(&body.equivocation_proofs),
                    None => {
                        proof {
                            assert(self.equivocation_locators@ =~= self.equivocation_locators@
                                + Self::locators_of(Self::block_proofs(block)));
                        }
                    },
                },
                Block::Macro(_) => {
                    proof {
                        assert(self.equivocation_locators@ =~= self.equivocation_locators@
                            + Self::locators_of(Self::block_proofs(block)));
                    }
                },
            }
            self.stored.push(block);
            self.main.push(digest);
            if is_election {
                let retired = match &self.current_slots {
                    Some(v) => Some(v.duplicate()),
                    None => None,
                };
                self.current_slots = new_validators;
                self.previous_slots = retired;
            }
            self.accounts_root = state_root;
            proof {
                let a = old(self);
                let nb = a.spec_stored_at(digest);
                assert(self.stored@ == a.stored@.push(self.stored@[a.stored@.len() as int]));
                let pushed = self.stored@[a.stored@.len() as int];
                assert(self.main@ =~= a.main@.take(a.spec_head_number() + 1)
                    + Seq::<Digest>::empty() + seq![pushed.spec_digest()]);
                assert(a.is_fork_path(
                    Seq::empty(),
                    a.spec_head_number(),
                    pushed.spec_parent_hash(),
                    pushed.spec_block_number() as int,
                ));
                crate::policy::lemma_div_mul_le(a.spec_head_number(), BATCH_LENGTH as int);
                Self::lemma_wf_adopt(
                    a,
                    self,
                    pushed,
                    Seq::empty(),
                    a.spec_head_number(),
                );
                assert(ev@ =~= seq![BlockchainEvent::Extended(pushed.spec_digest())]
                    + Self::adoption_suffix(pushed));
            }
            return Ok((PushResult::Extended, ev));
        }
        if number <= head_number {
            // a losing fork: store the block, keep the head
            let stored_copy = block.duplicate();
            match &block {
                Block::Micro(mb) => match &mb.body {
                    Some(body) => self.register_proofs(&body.equivocation_proofs),
                    None => {
                        proof {
                            assert(self.equivocation_locators@ =~= self.equivocation_locators@
                                + Self::locators_of(Self::block_proofs(block)));
                        }
                    },
                },
                Block::Macro(_) => {
                    proof {
                        assert(self.equivocation_locators@ =~= self.equivocation_locators@
                            + Self::locators_of(Self::block_proofs(block)));
                    }
                },
            }
            self.stored.push(block);
            let mut ev: Vec<BlockchainEvent> = Vec::new();
            ev.push(BlockchainEvent::Stored(stored_copy));
            proof {
                let a = old(self);
                let pushed = self.stored@[a.stored@.len() as int];
                Self::lemma_wf_store_push(a, self, pushed);
            }
            return Ok((PushResult::Forked, ev));
        }
        // the block completes a fork branch above the head: find the fork
        // point and decide between rebranching and ignoring
        let (fp, branch) = self.collect_fork_path(parent_hash, number);
        let ghost ds = branch@.map_values(|p: (Digest, Block)| p.0);
        let last_macro = (head_number / BATCH_LENGTH) * BATCH_LENGTH;
        proof {
            crate::policy::lemma_div_mul_le(head_number as int, BATCH_LENGTH as int);
        }
        if fp < last_macro {
            // adopting this branch would revert a final macro block
            proof {
                assert(old(self).is_fork_path(
                    ds,
                    fp as int,
                    block.spec_parent_hash(),
                    block.spec_block_number() as int,
                ));
            }
            return Ok((PushResult::Ignored, Vec::new()));
        }
        let state_root = block.state_root();
        let new_validators = Self::extract_validators(&block, is_election);
        let reverted = self.collect_reverted(fp);
        // keep the branch digests for the new main chain before the branch
        // moves into the event
        let mut branch_digests: Vec<Digest> = Vec::new();
        let mut bi: usize = 0;
        while bi < branch.len()
            invariant
                bi <= branch.len(),
                branch_digests@.len() == bi,
                forall|k: int|
                    0 <= k < bi ==> branch_digests@[k] == (#[trigger] branch@[k]).0,
            decreases branch.len() - bi,
        {
            branch_digests.push(branch[bi].0);
            bi = bi + 1;
        }
        proof {
            assert(branch_digests@ =~= ds);
        }
        let mut adopted = branch;
        adopted.push((digest, block.duplicate()));
        let mut ev: Vec<BlockchainEvent> = Vec::new();
        let ghost adopted_view = adopted@;
        let ghost reverted_view = reverted@;
        ev.push(BlockchainEvent::Rebranched(adopted, reverted));
        if macro_height {
            ev.push(BlockchainEvent::Finalized(digest));
        }
        if is_election {
            ev.push(BlockchainEvent::EpochFinalized(digest));
        }
        match &block {
            Block::Micro(mb) => match &mb.body {
                Some(body) => self.register_proofs(&body.equivocation_proofs),
                None => {
                    proof {
                        assert(self.equivocation_locators@ =~= self.equivocation_locators@
                            + Self::locators_of(Self::block_proofs(block)));
                    }
                },
            },
            Block::Macro(_) => {
                proof {
                    assert(self.equivocation_locators@ =~= self.equivocation_locators@
                        + Self::locators_of(Self::block_proofs(block)));
                }
            },
        }
        self.stored.push(block);
        self.main.truncate(fp as usize + 1);
        let ghost mid = *self;
        let mut mi: usize = 0;
        while mi < branch_digests.len()
            invariant
                mi <= branch_digests.len(),
                self.main@ == mid.main@ + branch_digests@.take(mi as int),
                self.stored == mid.stored,
                self.current_slots == mid.current_slots,
                self.previous_slots == mid.previous_slots,
                self.accounts_root == mid.accounts_root,
                self.accounts_complete == mid.accounts_complete,
                self.equivocation_locators == mid.equivocation_locators,
            decreases branch_digests.len() - mi,
        {
            proof {
                assert(branch_digests@.take(mi + 1int) =~= branch_digests@.take(mi as int).push(
                    branch_digests@[mi as int],
                ));
            }
            self.main.push(branch_digests[mi]);
            mi = mi + 1;
        }
        self.main.push(digest);
        if is_election {
            let retired = match &self.current_slots {
                Some(v) => Some(v.duplicate()),
                None => None,
            };
            self.current_slots = new_validators;
            self.previous_slots = retired;
        }
        self.accounts_root = state_root;
        proof {
            let a = old(self);
            let pushed = self.stored@[a.stored@.len() as int];
            assert(branch_digests@.take(branch_digests@.len() as int) =~= ds);
            assert(self.main@ =~= a.main@.take(fp as int + 1) + ds + seq![digest]);
            // the parent sits at the old head height, so the new head is
            // exactly one above it
            assert(a.stored[parent_index as int].spec_block_number() < a.main.len());
            Self::lemma_wf_adopt(a, self, pushed, ds, fp as int);
            assert(ev@.skip(1) =~= Self::adoption_suffix(pushed));
            assert(old(self).is_fork_path(
                ds,
                fp as int,
                block.spec_parent_hash(),
                block.spec_block_number() as int,
            ));
            assert(Self::rebranched_post(a, self, pushed, ds, fp as int, ev@));
        }
        Ok((PushResult::Rebranched, ev))
    }

    /// Settled heights are stable under an extension of the head: every
    /// main-chain block below the old head, in particular every election
    /// block, is the same before and after the push, so the validators of
    /// an epoch stay fixed for the epoch's whole lifetime.
    pub proof fn lemma_settled_heights_stable(
        a: &Blockchain,
        b: &Blockchain,
        block: Block,
        ev: Seq<BlockchainEvent>,
        h: int,
    )
        requires
            a.wf(),
            !a.spec_has_stored(block.spec_digest()),
            Self::extended_post(a, b, block, ev),
            0 <= h < a.main.len(),
        ensures
            b.main@[h] == a.main@[h],
            b.spec_main_block(h) == a.spec_main_block(h),
    {
        a.lemma_main_block_props(h);
        Self::lemma_lookup_extend(a, b, block, a.main[h]);
    }

    /// What a rebranch reverts and adopts: the two lists climb from the
    /// same fork point, the reverted blocks lie strictly below the new
    /// head, no block stands in both lists, and only micro blocks are
    /// ever reverted.
    pub proof fn lemma_rebranch_lists(
        a: &Blockchain,
        b: &Blockchain,
        block: Block,
        ds: Seq<Digest>,
        fp: int,
        ev: Seq<BlockchainEvent>,
    )
        requires
            a.wf(),
            !a.spec_has_stored(block.spec_digest()),
            a.is_fork_path(ds, fp, block.spec_parent_hash(), block.spec_block_number() as int),
            fp >= a.spec_last_macro(),
            fp < a.spec_head_number(),
            block.spec_block_number() == a.spec_head_number() + 1,
            Self::rebranched_post(a, b, block, ds, fp, ev),
        ensures
            ev[0] matches BlockchainEvent::Rebranched(ap, rv) && {
                &&& ap@.len() >= 1
                &&& rv@.len() >= 1
                &&& ap@[0].1.spec_parent_hash() == rv@[0].1.spec_parent_hash()
                &&& (forall|k: int|
                    0 <= k < rv@.len() ==> (#[trigger] rv@[k]).1.spec_block_number()
                        < block.spec_block_number())
                &&& (forall|i: int, j: int|
                    0 <= i < ap@.len() && 0 <= j < rv@.len() ==> (#[trigger] ap@[i]).0
                        != (#[trigger] rv@[j]).0)
                &&& (forall|k: int| 0 <= k < rv@.len() ==> !((#[trigger] rv@[k]).1 is Macro))
            },
    {
        let head = a.spec_head_number();
        let number = block.spec_block_number() as int;
        let ap = ev[0]->Rebranched_0;
        let rv = ev[0]->Rebranched_1;
        a.lemma_main_block_props(fp);
        a.lemma_main_block_props(fp + 1);
        // both lists grow out of the block at the fork point
        if ds.len() > 0 {
            assert(Block::header_eq(a.spec_stored_at(ds[0]), ap@[0].1));
        }
        // reverted blocks sit at the heights between fork point and head
        assert forall|k: int|
            0 <= k < rv@.len() implies (#[trigger] rv@[k]).1.spec_block_number() < number && !(
        rv@[k].1 is Macro) by {
            a.lemma_main_block_props(fp + 1 + k);
            let mb = a.spec_main_block(fp + 1 + k);
            assert(Block::header_eq(mb, rv@[k].1));
            // a macro block at that height would be a final one at or
            // below the fork point
            if mb.spec_block_number() % BATCH_LENGTH == 0 {
                crate::policy::lemma_multiple_le_div_mul(fp + 1 + k, head, BATCH_LENGTH as int);
                assert(false);
            }
        };
        // an adopted digest is never a reverted one: fork-branch blocks
        // are off the main chain at their heights, and the new head is
        // not stored at all
        assert forall|i: int, j: int|
            0 <= i < ap@.len() && 0 <= j < rv@.len() implies (#[trigger] ap@[i]).0 != (
        #[trigger] rv@[j]).0 by {
            a.lemma_main_block_props(fp + 1 + j);
            if i < ds.len() {
                if ds[i] == a.main@[fp + 1 + j] {
                    let x = a.stored_index(ds[i]);
                    let y = a.stored_index(a.main@[fp + 1 + j]);
                    assert(a.spec_stored_at(ds[i]).spec_block_number() == fp + 1 + i);
                    assert(a.spec_main_block(fp + 1 + j).spec_block_number() == fp + 1 + j);
                    if x != y {
                        assert(a.stored[x].spec_digest() == a.stored[y].spec_digest());
                    }
                    assert(fp + 1 + i == fp + 1 + j);
                    assert(!a.spec_is_main(fp + 1 + i, ds[i]));
                    assert(false);
                }
            } else {
                if block.spec_digest() == a.main@[fp + 1 + j] {
                    assert(a.spec_has_stored(block.spec_digest()));
                    assert(false);
                }
            }
        };
    }

    /// An epoch other than the current or previous one lies on the chain
    /// exactly when it is strictly below the previous one.
    proof fn lemma_epoch_order(&self, epoch: u32, height: u32)
        requires
            self.wf(),
            height == epoch as int * BLOCKS_PER_EPOCH as int,
            epoch != self.spec_head_number() / BLOCKS_PER_EPOCH as int,
            epoch + 1 != self.spec_head_number() / BLOCKS_PER_EPOCH as int,
        ensures
            height < self.main.len() <==> epoch < self.spec_head_number()
                / BLOCKS_PER_EPOCH as int,
    {
        let head = self.spec_head_number();
        let bpe = BLOCKS_PER_EPOCH as int;
        vstd::arithmetic::div_mod::lemma_fundamental_div_mod(head, bpe);
        vstd::arithmetic::div_mod::lemma_mod_bound(head, bpe);
        if epoch < head / bpe {
            vstd::arithmetic::mul::lemma_mul_inequality(epoch as int + 1, head / bpe, bpe);
        } else {
            assert(epoch >= head / bpe + 1);
            vstd::arithmetic::mul::lemma_mul_inequality(head / bpe + 1, epoch as int, bpe);
        }
    }
}

} // verus!
