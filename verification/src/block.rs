//! Models of blocks, justifications and equivocation proofs.
//!
//! A block is either a micro block, produced by a single proposer inside a
//! batch, or a macro block, produced at a batch boundary and justified by
//! a Tendermint precommit aggregate. Headers carry the digest under which
//! the wire encoding is stored; the consensus logic reads the digest only
//! for identity.

use vstd::prelude::*;
use crate::types::{Digest, DisabledSlots, Validators, ValidatorId, VrfSeed};

verus! {

/// Aggregated BLS signature together with the slots that contributed.
#[derive(Clone, Debug, PartialEq, Eq)]
pub struct MultiSignature {
    pub signature: u64,
    pub signers: Vec<u16>,
}

/// Justification of a macro block: the winning precommit aggregate of one
/// Tendermint round.
#[derive(Clone, Debug, PartialEq, Eq)]
pub struct TendermintProof {
    pub round: u32,
    pub sig: MultiSignature,
}

/// Justification of a micro block: the producer's signature, or a skip
/// proof when the slot owner stayed silent.
#[derive(Clone, Copy, Debug, PartialEq, Eq, Structural)]
pub enum MicroJustification {
    Standard { signature: u64 },
    Skip { signature: u64 },
}

/// The kind of misbehavior an equivocation proof shows.
#[derive(Clone, Copy, Debug, PartialEq, Eq, Structural, Hash)]
pub enum EquivocationKind {
    Fork,
    DoubleProposal,
    DoubleVote,
}

/// Canonical key of a detected misbehavior event, used to deduplicate
/// proofs: one record per validator, height and kind.
#[derive(Clone, Copy, Debug, PartialEq, Eq, Structural, Hash)]
pub struct EquivocationLocator {
    pub validator: ValidatorId,
    pub block_number: u32,
    pub kind: EquivocationKind,
}

/// Two distinct micro headers for one height signed by one validator.
#[derive(Clone, Copy, Debug, PartialEq, Eq, Structural)]
pub struct ForkProofData {
    pub validator: ValidatorId,
    pub block_number: u32,
    pub header1_digest: Digest,
    pub header2_digest: Digest,
}

/// Two distinct macro proposals for one height and round signed by one
/// validator.
#[derive(Clone, Copy, Debug, PartialEq, Eq, Structural)]
pub struct DoubleProposalProofData {
    pub validator: ValidatorId,
    pub block_number: u32,
    pub round: u32,
    pub header1_digest: Digest,
    pub header2_digest: Digest,
}

/// Two votes by one validator at the same height and round.
#[derive(Clone, Copy, Debug, PartialEq, Eq, Structural)]
pub struct DoubleVoteProofData {
    pub validator: ValidatorId,
    pub block_number: u32,
    pub round: u32,
}

/// Proof that a validator misbehaved.
#[derive(Clone, Copy, Debug, PartialEq, Eq, Structural)]
pub enum EquivocationProof {
    Fork(ForkProofData),
    DoubleProposal(DoubleProposalProofData),
    DoubleVote(DoubleVoteProofData),
}

impl EquivocationProof {
    /// The locator under which the proof is deduplicated.
    pub open spec fn spec_locator(&self) -> EquivocationLocator {
        match self {
            EquivocationProof::Fork(p) => EquivocationLocator {
                validator: p.validator,
                block_number: p.block_number,
                kind: EquivocationKind::Fork,
            },
            EquivocationProof::DoubleProposal(p) => EquivocationLocator {
                validator: p.validator,
                block_number: p.block_number,
                kind: EquivocationKind::DoubleProposal,
            },
            EquivocationProof::DoubleVote(p) => EquivocationLocator {
                validator: p.validator,
                block_number: p.block_number,
                kind: EquivocationKind::DoubleVote,
            },
        }
    }

    /// See [`Self::spec_locator`].
    pub fn locator(&self) -> (r: EquivocationLocator)
        ensures
            r == self.spec_locator(),
    {
        match self {
            EquivocationProof::Fork(p) => EquivocationLocator {
                validator: p.validator,
                block_number: p.block_number,
                kind: EquivocationKind::Fork,
            },
            EquivocationProof::DoubleProposal(p) => EquivocationLocator {
                validator: p.validator,
                block_number: p.block_number,
                kind: EquivocationKind::DoubleProposal,
            },
            EquivocationProof::DoubleVote(p) => EquivocationLocator {
                validator: p.validator,
                block_number: p.block_number,
                kind: EquivocationKind::DoubleVote,
            },
        }
    }

    /// Height of the misbehavior.
    pub fn block_number(&self) -> (r: u32)
        ensures
            r == self.spec_locator().block_number,
    {
        match self {
            EquivocationProof::Fork(p) => p.block_number,
            EquivocationProof::DoubleProposal(p) => p.block_number,
            EquivocationProof::DoubleVote(p) => p.block_number,
        }
    }

    /// A proof is canonical iff its first header digest is the smaller
    /// one; the non-canonical twin of a proof is rejected.
    pub open spec fn spec_is_canonical(&self) -> bool {
        match self {
            EquivocationProof::Fork(p) => p.header1_digest.value < p.header2_digest.value,
            EquivocationProof::DoubleProposal(p) => p.header1_digest.value
                < p.header2_digest.value,
            EquivocationProof::DoubleVote(_) => true,
        }
    }

    /// See [`Self::spec_is_canonical`].
    pub fn is_canonical(&self) -> (r: bool)
        ensures
            r == self.spec_is_canonical(),
    {
        match self {
            EquivocationProof::Fork(p) => p.header1_digest.lt(&p.header2_digest),
            EquivocationProof::DoubleProposal(p) => p.header1_digest.lt(&p.header2_digest),
            EquivocationProof::DoubleVote(_) => true,
        }
    }
}

/// Header of a micro block.
#[derive(Clone, Copy, Debug, PartialEq, Eq, Structural)]
pub struct MicroHeader {
    pub block_number: u32,
    pub timestamp: u64,
    pub parent_hash: Digest,
    pub seed: VrfSeed,
    pub state_root: Digest,
    pub body_root: Digest,
    pub history_root: Digest,
    /// Digest of this header on the wire, computed where the block is
    /// made.
    pub digest: Digest,
}

/// Body of a micro block: the equivocation proofs it reports. Transaction
/// payloads live with the accounts layer, outside the consensus core.
#[derive(Clone, Debug, PartialEq, Eq)]
pub struct MicroBody {
    pub equivocation_proofs: Vec<EquivocationProof>,
}

/// A micro block.
#[derive(Clone, Debug, PartialEq, Eq)]
pub struct MicroBlock {
    pub header: MicroHeader,
    pub body: Option<MicroBody>,
    pub justification: Option<MicroJustification>,
}

/// Header of a macro block.
#[derive(Clone, Copy, Debug, PartialEq, Eq, Structural)]
pub struct MacroHeader {
    pub block_number: u32,
    pub round: u32,
    pub timestamp: u64,
    pub parent_hash: Digest,
    pub parent_election_hash: Digest,
    pub seed: VrfSeed,
    pub state_root: Digest,
    pub body_root: Digest,
    pub history_root: Digest,
    /// Digest of this header on the wire, computed where the block is
    /// made.
    pub digest: Digest,
}

/// Body of a macro block: the validator set it elects (election blocks
/// only) and the slots punished for the next batch.
#[derive(Clone, Debug, PartialEq, Eq)]
pub struct MacroBody {
    pub validators: Option<Validators>,
    pub next_batch_initial_punished_set: DisabledSlots,
}

/// A macro block.
#[derive(Clone, Debug, PartialEq, Eq)]
pub struct MacroBlock {
    pub header: MacroHeader,
    pub body: Option<MacroBody>,
    pub justification: Option<TendermintProof>,
}

impl MacroBlock {
    /// The validator set elected by this block, if it is an election
    /// block with a body.
    pub fn get_validators(&self) -> (r: Option<Validators>)
        ensures
            match r {
                Some(v) => self.body is Some && self.body->Some_0.validators is Some
                    && v.bands@ == self.body->Some_0.validators->Some_0.bands@,
                None => self.body is None || self.body->Some_0.validators is None,
            },
    {
        match &self.body {
            Some(body) => match &body.validators {
                Some(v) => Some(v.duplicate()),
                None => None,
            },
            None => None,
        }
    }
}

impl MultiSignature {
    /// A copy of the aggregate, known field by field.
    pub fn duplicate(&self) -> (r: MultiSignature)
        ensures
            r.signature == self.signature,
            r.signers@ == self.signers@,
    {
        MultiSignature { signature: self.signature, signers: crate::types::copy_vec(&self.signers) }
    }
}

impl TendermintProof {
    /// A copy of the proof, known field by field.
    pub fn duplicate(&self) -> (r: TendermintProof)
        ensures
            r.round == self.round,
            r.sig.signature == self.sig.signature,
            r.sig.signers@ == self.sig.signers@,
    {
        TendermintProof { round: self.round, sig: self.sig.duplicate() }
    }
}

/// A block of the chain.
#[derive(Clone, Debug, PartialEq, Eq)]
pub enum Block {
    Micro(MicroBlock),
    Macro(MacroBlock),
}

impl Block {
    /// Height of the block.
    pub open spec fn spec_block_number(&self) -> u32 {
        match self {
            Block::Micro(b) => b.header.block_number,
            Block::Macro(b) => b.header.block_number,
        }
    }

    /// See [`Self::spec_block_number`].
    pub fn block_number(&self) -> (r: u32)
        ensures
            r == self.spec_block_number(),
    {
        match self {
            Block::Micro(b) => b.header.block_number,
            Block::Macro(b) => b.header.block_number,
        }
    }

    /// Digest of the parent block's header.
    pub open spec fn spec_parent_hash(&self) -> Digest {
        match self {
            Block::Micro(b) => b.header.parent_hash,
            Block::Macro(b) => b.header.parent_hash,
        }
    }

    /// See [`Self::spec_parent_hash`].
    pub fn parent_hash(&self) -> (r: Digest)
        ensures
            r == self.spec_parent_hash(),
    {
        match self {
            Block::Micro(b) => b.header.parent_hash,
            Block::Macro(b) => b.header.parent_hash,
        }
    }

    /// Digest of this block's header.
    pub open spec fn spec_digest(&self) -> Digest {
        match self {
            Block::Micro(b) => b.header.digest,
            Block::Macro(b) => b.header.digest,
        }
    }

    /// See [`Self::spec_digest`].
    pub fn digest(&self) -> (r: Digest)
        ensures
            r == self.spec_digest(),
    {
        match self {
            Block::Micro(b) => b.header.digest,
            Block::Macro(b) => b.header.digest,
        }
    }

    /// The block's VRF seed.
    pub open spec fn spec_seed(&self) -> VrfSeed {
        match self {
            Block::Micro(b) => b.header.seed,
            Block::Macro(b) => b.header.seed,
        }
    }

    /// See [`Self::spec_seed`].
    pub fn seed(&self) -> (r: VrfSeed)
        ensures
            r == self.spec_seed(),
    {
        match self {
            Block::Micro(b) => b.header.seed,
            Block::Macro(b) => b.header.seed,
        }
    }

    /// Root of the accounts trie after this block's transition.
    pub open spec fn spec_state_root(&self) -> Digest {
        match self {
            Block::Micro(b) => b.header.state_root,
            Block::Macro(b) => b.header.state_root,
        }
    }

    /// See [`Self::spec_state_root`].
    pub fn state_root(&self) -> (r: Digest)
        ensures
            r == self.spec_state_root(),
    {
        match self {
            Block::Micro(b) => b.header.state_root,
            Block::Macro(b) => b.header.state_root,
        }
    }

    /// The block's timestamp in milliseconds.
    pub fn timestamp(&self) -> (r: u64)
        ensures
            r == match self {
                Block::Micro(b) => b.header.timestamp,
                Block::Macro(b) => b.header.timestamp,
            },
    {
        match self {
            Block::Micro(b) => b.header.timestamp,
            Block::Macro(b) => b.header.timestamp,
        }
    }

    /// Whether this is a macro block.
    pub fn is_macro(&self) -> (r: bool)
        ensures
            r == (self is Macro),
    {
        match self {
            Block::Micro(_) => false,
            Block::Macro(_) => true,
        }
    }

    /// Whether two blocks agree on everything the chain logic reads of
    /// them: kind, header identity and linkage.
    pub open spec fn header_eq(x: Block, y: Block) -> bool {
        &&& (x is Macro) == (y is Macro)
        &&& x.spec_digest() == y.spec_digest()
        &&& x.spec_parent_hash() == y.spec_parent_hash()
        &&& x.spec_block_number() == y.spec_block_number()
        &&& x.spec_state_root() == y.spec_state_root()
        &&& x.spec_seed() == y.spec_seed()
    }

    /// A copy of the block whose header fields are known to be kept.
    pub fn duplicate(&self) -> (r: Block)
        ensures
            Self::header_eq(*self, r),
    {
        match self {
            Block::Micro(b) => Block::Micro(
                MicroBlock {
                    header: b.header,
                    body: match &b.body {
                        Some(body) => Some(
                            MicroBody {
                                equivocation_proofs: crate::types::copy_vec(
                                    &body.equivocation_proofs,
                                ),
                            },
                        ),
                        None => None,
                    },
                    justification: b.justification,
                },
            ),
            Block::Macro(b) => Block::Macro(
                MacroBlock {
                    header: b.header,
                    body: match &b.body {
                        Some(body) => Some(
                            MacroBody {
                                validators: match &body.validators {
                                    Some(v) => Some(v.duplicate()),
                                    None => None,
                                },
                                next_batch_initial_punished_set: body
                                    .next_batch_initial_punished_set
                                    .duplicate(),
                            },
                        ),
                        None => None,
                    },
                    justification: match &b.justification {
                        Some(j) => Some(j.duplicate()),
                        None => None,
                    },
                },
            ),
        }
    }

    /// The macro block inside; the caller must know the block is macro.
    pub fn unwrap_macro(self) -> (r: MacroBlock)
        requires
            self is Macro,
        ensures
            self == Block::Macro(r),
    {
        match self {
            Block::Micro(_) => vstd::pervasive::unreached(),
            Block::Macro(b) => b,
        }
    }
}

} // verus!
