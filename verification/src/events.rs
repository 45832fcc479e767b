//! Push outcomes, error taxonomy and the events a push publishes.

use vstd::prelude::*;
use crate::block::{Block, EquivocationLocator, ForkProofData};
use crate::types::Digest;

verus! {

/// Raised when a fork proof becomes observable.
#[derive(Clone, Copy, Debug, PartialEq, Eq, Structural)]
pub enum ForkEvent {
    Detected(ForkProofData),
}

/// Events from the blockchain. `Finalized` and `EpochFinalized` are sent
/// in addition to the event that adopted the macro block.
#[derive(Clone, Debug, PartialEq, Eq)]
pub enum BlockchainEvent {
    Extended(Digest),
    HistoryAdopted(Digest),
    /// The adopted and the reverted chain, in this order, both ordered by
    /// block height ascending.
    Rebranched(Vec<(Digest, Block)>, Vec<(Digest, Block)>),
    /// The block was stored in the chain store but not adopted as the new
    /// head: a forked or inferior-chain block.
    Stored(Block),
    Finalized(Digest),
    EpochFinalized(Digest),
}

impl BlockchainEvent {
    /// The hashes this event adds to the chain, in spec form: one hash
    /// for an extension, adoption or stored block; the adopted hashes of
    /// a rebranch; nothing for the finalization markers.
    pub open spec fn spec_added_hashes(&self) -> Seq<Digest> {
        match self {
            BlockchainEvent::EpochFinalized(_) => Seq::empty(),
            BlockchainEvent::Extended(hash) => seq![*hash],
            BlockchainEvent::Finalized(_) => Seq::empty(),
            BlockchainEvent::HistoryAdopted(hash) => seq![*hash],
            BlockchainEvent::Rebranched(adopted, _) => adopted@.map_values(
                |p: (Digest, Block)| p.0,
            ),
            BlockchainEvent::Stored(block) => seq![block.spec_digest()],
        }
    }

    /// Returns all block hashes added by this event.
    pub fn added_hashes(&self) -> (r: Vec<Digest>)
        ensures
            r@ == self.spec_added_hashes(),
    {
        match self {
            BlockchainEvent::EpochFinalized(_) => {
                let r: Vec<Digest> = Vec::new();
                proof {
                    assert(r@ =~= self.spec_added_hashes());
                }
                r
            },
            BlockchainEvent::Extended(hash) => {
                let mut r: Vec<Digest> = Vec::new();
                r.push(*hash);
                proof {
                    assert(r@ =~= self.spec_added_hashes());
                }
                r
            },
            BlockchainEvent::Finalized(_) => {
                let r: Vec<Digest> = Vec::new();
                proof {
                    assert(r@ =~= self.spec_added_hashes());
                }
                r
            },
            BlockchainEvent::HistoryAdopted(hash) => {
                let mut r: Vec<Digest> = Vec::new();
                r.push(*hash);
                proof {
                    assert(r@ =~= self.spec_added_hashes());
                }
                r
            },
            BlockchainEvent::Rebranched(adopted, _) => {
                let mut r: Vec<Digest> = Vec::new();
                let mut i: usize = 0;
                while i < adopted.len()
                    invariant
                        i <= adopted.len(),
                        r@ =~= adopted@.take(i as int).map_values(|p: (Digest, Block)| p.0),
                    decreases adopted.len() - i,
                {
                    r.push(adopted[i].0);
                    proof {
                        assert(adopted@.take(i + 1int).map_values(|p: (Digest, Block)| p.0)
                            =~= adopted@.take(i as int).map_values(|p: (Digest, Block)| p.0).push(
                            adopted@[i as int].0,
                        ));
                    }
                    i = i + 1;
                }
                proof {
                    assert(adopted@.take(adopted@.len() as int) =~= adopted@);
                }
                r
            },
            BlockchainEvent::Stored(block) => {
                let mut r: Vec<Digest> = Vec::new();
                r.push(block.digest());
                proof {
                    assert(r@ =~= self.spec_added_hashes());
                }
                r
            },
        }
    }
}

/// A structural fault found in a single block.
#[derive(Clone, Copy, Debug, PartialEq, Eq, Structural)]
pub enum BlockError {
    UnsupportedVersion,
    InvalidBlockNumber,
    InvalidBlockType,
    MissingBody,
    MissingJustification,
    StateRootMismatch,
    InvalidSeed,
}

/// A fault raised by the accounts layer while applying a block.
#[derive(Clone, Copy, Debug, PartialEq, Eq, Structural)]
pub enum AccountError {
    InsufficientFunds,
    InvalidData,
}

/// A fault found in an equivocation proof.
#[derive(Clone, Copy, Debug, PartialEq, Eq, Structural)]
pub enum EquivocationProofError {
    NonCanonicalOrder,
    InvalidJustification,
}

/// Faults of the chain itself, as opposed to faults of one pushed block.
#[derive(Clone, Copy, Debug, PartialEq, Eq, Structural)]
pub enum BlockchainError {
    InvalidGenesisBlock,
    FailedLoadingMainChain,
    InconsistentState,
    NoNetwork(u32),
    BlockNotFound(u32),
    BlockNotFoundByHash(Digest),
    BlockBodyNotFound,
    BlockIsNotMacro,
    NoValidatorsFound,
    InvalidEpoch,
    AccountsDiffNotFound,
    GenesisAccountsRequiredMainnet,
    GenesisAccountsRequired,
}

/// Outcome of a successful push.
#[derive(Clone, Copy, Debug, PartialEq, Eq, Structural)]
pub enum PushResult {
    Known,
    Extended,
    Rebranched,
    Forked,
    Ignored,
}

/// Why a push was refused; the chain state is never mutated on an error.
#[derive(Clone, Copy, Debug, PartialEq, Eq, Structural)]
pub enum PushError {
    Orphan,
    InvalidZKP,
    InvalidBlock(BlockError),
    InvalidSuccessor,
    InvalidPredecessor,
    DuplicateTransaction,
    InvalidEquivocationProof(EquivocationProofError),
    AccountsError(AccountError),
    InvalidFork,
    BlockchainError(BlockchainError),
    MissingAccountsTrieDiff,
    EquivocationAlreadyIncluded(EquivocationLocator),
    IncompleteAccountsTrie,
}

/// Direction of a block or transaction walk.
#[derive(Clone, Copy, Debug, PartialEq, Eq, Structural, PartialOrd, Ord, Hash)]
pub enum Direction {
    Forward,
    Backward,
}

/// Outcome of pushing a batch of accounts trie chunks.
#[derive(Clone, Copy, Debug, PartialEq, Eq, Structural)]
pub enum ChunksPushResult {
    EmptyChunks,
    /// The number of committed and of ignored chunks, in this order.
    Chunks(usize, usize),
}

/// Failure while pushing accounts trie chunks.
#[derive(Clone, Copy, Debug, PartialEq, Eq, Structural)]
pub enum ChunksPushError {
    AccountsError(usize, AccountError),
}

impl ChunksPushError {
    /// Index of the chunk that failed.
    pub fn chunk_index(&self) -> (r: usize)
        ensures
            r == match self {
                ChunksPushError::AccountsError(i, _) => *i,
            },
    {
        match self {
            ChunksPushError::AccountsError(i, _) => *i,
        }
    }
}

} // verus!
