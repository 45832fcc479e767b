//! Consensus core of an Albatross-style Proof-of-Stake blockchain.
//!
//! The crate models the pieces that drive safety and liveness of such a
//! chain: the policy constants and their derivations, slot-based validator
//! selection, the chain-extension decision (push / rebranch / finalize),
//! the Tendermint macro-block state machine with its persistence snapshot,
//! and a fixed-point unsigned number used for reward accounting.

pub mod policy;
pub mod types;
pub mod slots;
pub mod block;
pub mod events;
pub mod chain;
pub mod tendermint;
pub mod driver;
pub mod bignum;
pub mod fixed;
pub mod rpc;
pub mod sigproof;

use vstd::prelude::*;

verus! {

/// Number of the batch that the genesis block closes; the chain proper
/// starts above it.
pub const GENESIS_BLOCK_NUMBER: u32 = 0;

} // verus!
