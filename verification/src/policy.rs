//! Network policy constants and the block-number derivations built on them.
//!
//! A *batch* is a fixed-length run of micro blocks closed by a macro block;
//! an *epoch* is a fixed number of batches closed by an election macro
//! block. Macro block numbers are exactly the multiples of `BATCH_LENGTH`,
//! and election block numbers are exactly the multiples of
//! `BLOCKS_PER_EPOCH`.

use vstd::prelude::*;

verus! {

/// Number of blocks in one batch (micro blocks plus the closing macro).
pub const BATCH_LENGTH: u32 = 60;

/// Number of batches in one epoch.
pub const BATCHES_PER_EPOCH: u32 = 720;

/// Number of blocks in one epoch.
pub const BLOCKS_PER_EPOCH: u32 = 43200;

/// Total number of validator slots per epoch.
pub const SLOTS: u16 = 512;

/// Target separation between two consecutive blocks, in milliseconds.
pub const BLOCK_SEPARATION_TIME: u64 = 1000;

/// The epoch length is the product of the two batch constants.
pub proof fn lemma_blocks_per_epoch()
    ensures
        BLOCKS_PER_EPOCH == BATCH_LENGTH * BATCHES_PER_EPOCH,
{
}

/// Index of the batch that the block at `block_number` belongs to.
pub fn batch_at(block_number: u32) -> (r: u32)
    ensures
        r == block_number / BATCH_LENGTH,
{
    block_number / BATCH_LENGTH
}

/// Index of the epoch that the block at `block_number` belongs to.
pub fn epoch_at(block_number: u32) -> (r: u32)
    ensures
        r == block_number / BLOCKS_PER_EPOCH,
        r == (block_number / BATCH_LENGTH) / BATCHES_PER_EPOCH,
{
    proof {
        vstd::arithmetic::div_mod::lemma_div_denominator(
            block_number as int,
            BATCH_LENGTH as int,
            BATCHES_PER_EPOCH as int,
        );
    }
    block_number / BLOCKS_PER_EPOCH
}

/// Whether the block at `block_number` is a macro block.
pub fn is_macro_block_at(block_number: u32) -> (r: bool)
    ensures
        r == (block_number % BATCH_LENGTH == 0),
{
    block_number % BATCH_LENGTH == 0
}

/// Whether the block at `block_number` is an election macro block.
pub fn is_election_block_at(block_number: u32) -> (r: bool)
    ensures
        r == (block_number % BLOCKS_PER_EPOCH == 0),
{
    block_number % BLOCKS_PER_EPOCH == 0
}

/// Whether the block at `block_number` is a micro block.
pub fn is_micro_block_at(block_number: u32) -> (r: bool)
    ensures
        r == (block_number % BATCH_LENGTH != 0),
{
    block_number % BATCH_LENGTH != 0
}

/// Number of the latest macro block strictly before `block_number`.
pub fn macro_block_before(block_number: u32) -> (r: u32)
    requires
        block_number > 0,
    ensures
        r == ((block_number - 1) as int / BATCH_LENGTH as int) * BATCH_LENGTH,
        r % BATCH_LENGTH == 0,
        r < block_number,
        block_number - r <= BATCH_LENGTH,
{
    proof {
        vstd::arithmetic::div_mod::lemma_fundamental_div_mod(
            (block_number - 1) as int,
            BATCH_LENGTH as int,
        );
        vstd::arithmetic::div_mod::lemma_mod_division_less_than_divisor(
            (block_number - 1) as int,
            BATCH_LENGTH as int,
        );
        vstd::arithmetic::div_mod::lemma_mod_multiples_basic(
            (block_number - 1) as int / BATCH_LENGTH as int,
            BATCH_LENGTH as int,
        );
    }
    ((block_number - 1) / BATCH_LENGTH) * BATCH_LENGTH
}

/// Number of the election macro block that closes `epoch`, if it fits in a
/// block number.
pub fn election_block_of(epoch: u32) -> (r: Option<u32>)
    ensures
        match r {
            Some(n) => n == epoch * BLOCKS_PER_EPOCH && n % BLOCKS_PER_EPOCH == 0,
            None => epoch * BLOCKS_PER_EPOCH > u32::MAX,
        },
{
    proof {
        if epoch * BLOCKS_PER_EPOCH <= u32::MAX {
            vstd::arithmetic::div_mod::lemma_mod_multiples_basic(
                epoch as int,
                BLOCKS_PER_EPOCH as int,
            );
        }
    }
    epoch.checked_mul(BLOCKS_PER_EPOCH)
}

/// A block later in the chain never sits in an earlier epoch.
pub proof fn lemma_epoch_at_monotone(a: u32, b: u32)
    requires
        a <= b,
    ensures
        a / BLOCKS_PER_EPOCH <= b / BLOCKS_PER_EPOCH,
{
    vstd::arithmetic::div_mod::lemma_div_is_ordered(a as int, b as int, BLOCKS_PER_EPOCH as int);
}

/// Rounding a number down to a multiple of `k` never overshoots it.
pub proof fn lemma_div_mul_le(n: int, k: int)
    requires
        n >= 0,
        k > 0,
    ensures
        0 <= (n / k) * k <= n,
{
    assert(0 <= (n / k) * k <= n) by (nonlinear_arith)
        requires
            n >= 0,
            k > 0,
    ;
}

/// `(n / k) * k` is the largest multiple of `k` not above `n`.
pub proof fn lemma_multiple_le_div_mul(m: int, n: int, k: int)
    requires
        k > 0,
        m % k == 0,
        0 <= m <= n,
    ensures
        m <= (n / k) * k,
{
    assert(m <= (n / k) * k) by (nonlinear_arith)
        requires
            k > 0,
            m % k == 0,
            0 <= m <= n,
    ;
}

/// How a quotient moves when its dividend grows by one: it steps up
/// exactly at the multiples of `k`.
pub proof fn lemma_div_succ(n: int, k: int)
    requires
        n >= 0,
        k > 0,
    ensures
        (n + 1) % k == 0 ==> (n + 1) / k == n / k + 1 && ((n + 1) / k) * k == n + 1,
        (n + 1) % k != 0 ==> (n + 1) / k == n / k && ((n + 1) / k) * k == (n / k) * k,
{
    assert((n + 1) % k == 0 ==> (n + 1) / k == n / k + 1 && ((n + 1) / k) * k == n + 1)
        by (nonlinear_arith)
        requires
            n >= 0,
            k > 0,
    ;
    assert((n + 1) % k != 0 ==> (n + 1) / k == n / k && ((n + 1) / k) * k == (n / k) * k)
        by (nonlinear_arith)
        requires
            n >= 0,
            k > 0,
    ;
}

/// Policy constants in the shape served to external observers.
pub struct PolicyConstants {
    pub staking_contract_address: String,
    pub coinbase_address: String,
    pub transaction_validity_window: u32,
    pub max_size_micro_body: usize,
    pub version: u16,
    pub slots: u16,
    pub blocks_per_batch: u32,
    pub batches_per_epoch: u16,
    pub blocks_per_epoch: u32,
    pub validator_deposit: u64,
    pub total_supply: u64,
    pub block_separation_time: u64,
}

impl PolicyConstants {
    /// Whether the tabled constants agree with the crate's policy.
    pub open spec fn consistent(&self) -> bool {
        &&& self.slots == SLOTS
        &&& self.blocks_per_batch == BATCH_LENGTH
        &&& self.batches_per_epoch == BATCHES_PER_EPOCH
        &&& self.blocks_per_epoch == BLOCKS_PER_EPOCH
        &&& self.block_separation_time == BLOCK_SEPARATION_TIME
    }
}

} // verus!
