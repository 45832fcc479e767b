//! Types served to external observers, and the pure computations behind
//! them.
//!
//! Observers see the chain through plain values: validity heights, slot
//! tables, chain-state stamps and mempool statistics. The serialization
//! itself lives outside the core.

use vstd::prelude::*;
use crate::types::{Digest, Validators, ValidatorId};

verus! {

/// Where a transaction's validity window starts: at a block number, or
/// relative to the chain height at submission.
#[derive(Clone, Copy, Debug, PartialEq, Eq, Structural)]
pub enum ValidityStartHeight {
    Absolute(u32),
    Relative(u32),
}

impl ValidityStartHeight {
    /// The absolute block number the window starts at, given the current
    /// chain height. A relative start that leaves the block-number range
    /// is a caller error and is excluded.
    pub fn block_number(self, current_block_number: u32) -> (r: u32)
        requires
            self matches ValidityStartHeight::Relative(n) ==> n + current_block_number <= u32::MAX,
        ensures
            r == match self {
                ValidityStartHeight::Absolute(n) => n as int,
                ValidityStartHeight::Relative(n) => n + current_block_number,
            },
    {
        match self {
            Self::Absolute(n) => n,
            Self::Relative(n) => n + current_block_number,
        }
    }
}

impl Default for ValidityStartHeight {
    /// The default window starts right at the submission height.
    fn default() -> (r: Self)
        ensures
            r == ValidityStartHeight::Relative(0u32),
    {
        Self::Relative(0)
    }
}

/// Hash algorithms selectable for time-locked contracts.
#[derive(Clone, Copy, Debug, PartialEq, Eq, Structural)]
pub enum HashAlgorithm {
    Blake2b,
    Sha256,
    Sha512,
}

/// A response value paired with the state it was computed against.
#[derive(Clone, Debug, PartialEq, Eq)]
pub struct RPCData<T, S> {
    pub data: T,
    pub metadata: S,
}

impl<T, S> RPCData<T, S> {
    /// Pairs a value with its metadata.
    pub fn new(data: T, metadata: S) -> (r: Self)
        ensures
            r.data == data,
            r.metadata == metadata,
    {
        RPCData { data, metadata }
    }
}

/// The chain state a response was computed against.
#[derive(Clone, Copy, Debug, PartialEq, Eq, Structural)]
pub struct BlockchainState {
    pub block_number: u32,
    pub block_hash: Digest,
}

impl BlockchainState {
    /// Stamps a height and head digest.
    pub fn new(block_number: u32, block_hash: Digest) -> (r: Self)
        ensures
            r.block_number == block_number,
            r.block_hash == block_hash,
    {
        BlockchainState { block_number, block_hash }
    }
}

/// The kinds of account log entries observers can filter by.
#[derive(Clone, Copy, Debug, PartialEq, Eq, Structural)]
pub enum LogType {
    PayFee,
    Transfer,
    HtlcCreate,
    HtlcTimeoutResolve,
    HtlcRegularTransfer,
    HtlcEarlyResolve,
    VestingCreate,
    CreateValidator,
    UpdateValidator,
    ValidatorFeeDeduction,
    DeactivateValidator,
    ReactivateValidator,
    JailValidator,
    CreateStaker,
    Stake,
    UpdateStaker,
    StakerFeeDeduction,
    RetireValidator,
    DeleteValidator,
    Unstake,
    SetInactiveStake,
    PayoutReward,
    Penalize,
    Jail,
    RevertContract,
    FailedTransaction,
}

/// One validator's contiguous slot band, as served to observers.
#[derive(Clone, Copy, Debug, PartialEq, Eq, Structural)]
pub struct Slots {
    pub first_slot_number: u16,
    pub num_slots: u16,
    pub validator: ValidatorId,
    pub public_key: u64,
}

impl Slots {
    /// Tabulates a validator set band by band.
    pub fn from_slots(validators: &Validators) -> (r: Vec<Slots>)
        requires
            validators.wf(),
        ensures
            r@.len() == validators.bands@.len(),
            forall|i: int|
                0 <= i < r@.len() ==> {
                    let band = validators.bands@[i];
                    &&& (#[trigger] r@[i]).first_slot_number == band.start
                    &&& r@[i].num_slots == band.end - band.start
                    &&& r@[i].validator == band.address
                    &&& r@[i].public_key == band.voting_key
                },
    {
        let mut slots: Vec<Slots> = Vec::new();
        let mut i: usize = 0;
        while i < validators.bands.len()
            invariant
                validators.wf(),
                i <= validators.bands.len(),
                slots@.len() == i,
                forall|k: int|
                    0 <= k < i ==> {
                        let band = validators.bands@[k];
                        &&& (#[trigger] slots@[k]).first_slot_number == band.start
                        &&& slots@[k].num_slots == band.end - band.start
                        &&& slots@[k].validator == band.address
                        &&& slots@[k].public_key == band.voting_key
                    },
            decreases validators.bands.len() - i,
        {
            let band = validators.bands[i];
            slots.push(
                Slots {
                    first_slot_number: band.start,
                    num_slots: band.end - band.start,
                    validator: band.address,
                    public_key: band.voting_key,
                },
            );
            i = i + 1;
        }
        slots
    }
}

/// A mempool transaction as the fee statistics see it: its fee and its
/// size on the wire, in bytes.
#[derive(Clone, Copy, Debug, PartialEq, Eq, Structural)]
pub struct TxFee {
    pub fee: u64,
    pub size: u64,
}

/// The fee band a transaction falls into: the largest tabled
/// fee-per-byte bound not above its own fee per byte, compared exactly.
pub open spec fn spec_band(fee: nat, size: nat) -> int {
    if fee < 1 * size {
        0
    } else if fee < 2 * size {
        1
    } else if fee < 5 * size {
        2
    } else if fee < 10 * size {
        5
    } else if fee < 20 * size {
        10
    } else if fee < 50 * size {
        20
    } else if fee < 100 * size {
        50
    } else if fee < 200 * size {
        100
    } else if fee < 500 * size {
        200
    } else if fee < 1000 * size {
        500
    } else if fee < 2000 * size {
        1000
    } else if fee < 5000 * size {
        2000
    } else if fee < 10000 * size {
        5000
    } else {
        10000
    }
}

/// How many of the first `i` transactions fall into `band`.
pub open spec fn count_band(txs: Seq<TxFee>, band: int, i: int) -> int
    decreases i,
{
    if i <= 0 {
        0
    } else {
        count_band(txs, band, i - 1) + if spec_band(txs[i - 1].fee as nat, txs[i - 1].size as nat)
            == band {
            1int
        } else {
            0int
        }
    }
}

/// A band's count over a prefix never exceeds the prefix length.
pub proof fn lemma_count_band_le(txs: Seq<TxFee>, band: int, i: int)
    requires
        0 <= i <= txs.len(),
    ensures
        0 <= count_band(txs, band, i) <= i,
    decreases i,
{
    if i > 0 {
        lemma_count_band_le(txs, band, i - 1);
    }
}

/// A field of the statistics matches the count of its band: absent when
/// no transaction fell into the band, else the exact count.
pub open spec fn field_counts(field: Option<u32>, txs: Seq<TxFee>, band: int, i: int) -> bool {
    field == if count_band(txs, band, i) == 0 {
        None::<u32>
    } else {
        Some(count_band(txs, band, i) as u32)
    }
}

/// Fee statistics over the mempool: per fee band, the number of
/// transactions whose fee per byte falls into it.
#[derive(Clone, Debug, PartialEq, Eq)]
pub struct MempoolInfo {
    pub _0: Option<u32>,
    pub _1: Option<u32>,
    pub _2: Option<u32>,
    pub _5: Option<u32>,
    pub _10: Option<u32>,
    pub _20: Option<u32>,
    pub _50: Option<u32>,
    pub _100: Option<u32>,
    pub _200: Option<u32>,
    pub _500: Option<u32>,
    pub _1000: Option<u32>,
    pub _2000: Option<u32>,
    pub _5000: Option<u32>,
    pub _10000: Option<u32>,
    pub total: u32,
    pub buckets: Vec<u32>,
}

impl MempoolInfo {
    /// Which field of the statistics serves a band.
    pub open spec fn spec_field(&self, band: int) -> Option<u32> {
        if band == 0 {
            self._0
        } else if band == 1 {
            self._1
        } else if band == 2 {
            self._2
        } else if band == 5 {
            self._5
        } else if band == 10 {
            self._10
        } else if band == 20 {
            self._20
        } else if band == 50 {
            self._50
        } else if band == 100 {
            self._100
        } else if band == 200 {
            self._200
        } else if band == 500 {
            self._500
        } else if band == 1000 {
            self._1000
        } else if band == 2000 {
            self._2000
        } else if band == 5000 {
            self._5000
        } else {
            self._10000
        }
    }

    /// Whether `band` is one of the tabled fee bands.
    pub open spec fn is_band(band: int) -> bool {
        band == 0 || band == 1 || band == 2 || band == 5 || band == 10 || band == 20 || band == 50
            || band == 100 || band == 200 || band == 500 || band == 1000 || band == 2000 || band
            == 5000 || band == 10000
    }

    /// Tallies the mempool's transactions into fee bands. Each band's
    /// field carries its exact count once a transaction fell into it; the
    /// buckets list names each nonempty band exactly once, in order of
    /// first occurrence. Sizes are positive: a transaction has at least
    /// its header byte.
    pub fn from_txs(transactions: &Vec<TxFee>) -> (r: MempoolInfo)
        requires
            transactions@.len() <= u32::MAX,
            forall|i: int|
                0 <= i < transactions@.len() ==> (#[trigger] transactions@[i]).size >= 1,
        ensures
            r.total == transactions@.len(),
            forall|band: int|
                Self::is_band(band) ==> field_counts(
                    #[trigger] r.spec_field(band),
                    transactions@,
                    band,
                    transactions@.len() as int,
                ),
            forall|i: int, j: int| 0 <= i < j < r.buckets@.len() ==> r.buckets@[i] != r.buckets@[j],
            forall|band: int|
                Self::is_band(band) ==> (r.buckets@.contains(band as u32) <==> count_band(
                    transactions@,
                    band,
                    transactions@.len() as int,
                ) > 0),
    {
        let mut info = MempoolInfo {
            _0: None,
            _1: None,
            _2: None,
            _5: None,
            _10: None,
            _20: None,
            _50: None,
            _100: None,
            _200: None,
            _500: None,
            _1000: None,
            _2000: None,
            _5000: None,
            _10000: None,
            total: 0,
            buckets: Vec::new(),
        };
        let mut i: usize = 0;
        while i < transactions.len()
            invariant
                transactions@.len() <= u32::MAX,
                forall|k: int|
                    0 <= k < transactions@.len() ==> (#[trigger] transactions@[k]).size >= 1,
                i <= transactions@.len(),
                info.total == i,
                forall|band: int|
                    Self::is_band(band) ==> field_counts(
                        #[trigger] info.spec_field(band),
                        transactions@,
                        band,
                        i as int,
                    ),
                forall|a: int, b: int|
                    0 <= a < b < info.buckets@.len() ==> info.buckets@[a] != info.buckets@[b],
                forall|band: int|
                    Self::is_band(band) ==> (info.buckets@.contains(band as u32) <==> count_band(
                        transactions@,
                        band,
                        i as int,
                    ) > 0),
                forall|k: int|
                    0 <= k < info.buckets@.len() ==> Self::is_band(info.buckets@[k] as int),
            decreases transactions@.len() - i,
        {
            let tx = transactions[i];
            let band = Self::band_of(tx.fee, tx.size);
            proof {
                lemma_count_band_le(transactions@, band as int, i as int);
            }
            let ghost pre = info;
            info.bump(band);
            proof {
                assert forall|b: int|
                    Self::is_band(b) implies field_counts(
                    #[trigger] info.spec_field(b),
                    transactions@,
                    b,
                    i + 1int,
                ) by {
                    assert(field_counts(pre.spec_field(b), transactions@, b, i as int));
                    assert(count_band(transactions@, b, i + 1int) == count_band(
                        transactions@,
                        b,
                        i as int,
                    ) + if spec_band(transactions@[i as int].fee as nat, transactions@[
                        i as int].size as nat) == b {
                        1int
                    } else {
                        0int
                    });
                    lemma_count_band_le(transactions@, b, i as int);
                };
                assert forall|b: int|
                    Self::is_band(b) implies (info.buckets@.contains(b as u32) <==> count_band(
                    transactions@,
                    b,
                    i + 1int,
                ) > 0) by {
                    lemma_count_band_le(transactions@, b, i as int);
                    if pre.spec_field(band as int) is None {
                        assert(info.buckets@ == pre.buckets@.push(band));
                        if b == band {
                            assert(info.buckets@[info.buckets@.len() - 1] == band);
                            assert(info.buckets@.contains(band));
                        } else {
                            assert forall|k: int|
                                0 <= k < info.buckets@.len() && info.buckets@[k]
                                    == b as u32 implies pre.buckets@.contains(b as u32) by {
                                assert(k < pre.buckets@.len());
                                assert(pre.buckets@[k] == b as u32);
                            };
                            assert forall|k: int|
                                0 <= k < pre.buckets@.len() && pre.buckets@[k]
                                    == b as u32 implies info.buckets@.contains(b as u32) by {
                                assert(info.buckets@[k] == b as u32);
                            };
                        }
                    } else {
                        if b == band {
                            assert(pre.buckets@.contains(band));
                        }
                    }
                };
            }
            i = i + 1;
        }
        info
    }

    /// The fee band of one transaction, by exact comparison of
    /// `fee / size` against the tabled bounds.
    fn band_of(fee: u64, size: u64) -> (r: u32)
        requires
            size >= 1,
        ensures
            r == spec_band(fee as nat, size as nat),
            Self::is_band(r as int),
    {
        proof {
            assert(2 * size <= 0x2_0000_0000_0000_0000int) by (nonlinear_arith)
                requires
                    size <= 0xffff_ffff_ffff_ffffu64,
            ;
            assert(10000 * size <= 0x2710_0000_0000_0000_0000int) by (nonlinear_arith)
                requires
                    size <= 0xffff_ffff_ffff_ffffu64,
            ;
        }
        let fee = fee as u128;
        let size = size as u128;
        if fee < size {
            0
        } else if fee < 2 * size {
            1
        } else if fee < 5 * size {
            2
        } else if fee < 10 * size {
            5
        } else if fee < 20 * size {
            10
        } else if fee < 50 * size {
            20
        } else if fee < 100 * size {
            50
        } else if fee < 200 * size {
            100
        } else if fee < 500 * size {
            200
        } else if fee < 1000 * size {
            500
        } else if fee < 2000 * size {
            1000
        } else if fee < 5000 * size {
            2000
        } else if fee < 10000 * size {
            5000
        } else {
            10000
        }
    }

    /// Counts one transaction into its band.
    fn bump(&mut self, band: u32)
        requires
            Self::is_band(band as int),
            old(self).total < u32::MAX,
            old(self).spec_field(band as int) matches Some(c) ==> c < u32::MAX,
            forall|a: int, b: int|
                0 <= a < b < old(self).buckets@.len() ==> old(self).buckets@[a] != old(
                    self,
                ).buckets@[b],
            forall|k: int|
                0 <= k < old(self).buckets@.len() ==> Self::is_band(old(self).buckets@[k] as int),
            (old(self).buckets@.contains(band) <==> old(self).spec_field(band as int) is Some),
        ensures
            final(self).total == old(self).total + 1,
            final(self).spec_field(band as int) == Some(
                (match old(self).spec_field(band as int) {
                    Some(c) => c + 1,
                    None => 1int,
                }) as u32,
            ),
            forall|other: int|
                Self::is_band(other) && other != band
                    ==> final(self).spec_field(other) == old(self).spec_field(other),
            if old(self).spec_field(band as int) is Some {
                final(self).buckets@ == old(self).buckets@
            } else {
                final(self).buckets@ == old(self).buckets@.push(band)
            },
            forall|a: int, b: int|
                0 <= a < b < final(self).buckets@.len()
                    ==> final(self).buckets@[a] != final(self).buckets@[b],
            forall|k: int|
                0 <= k < final(self).buckets@.len() ==> Self::is_band(
                    final(self).buckets@[k] as int,
                ),
    {
        let field = if band == 0 {
            &mut self._0
        } else if band == 1 {
            &mut self._1
        } else if band == 2 {
            &mut self._2
        } else if band == 5 {
            &mut self._5
        } else if band == 10 {
            &mut self._10
        } else if band == 20 {
            &mut self._20
        } else if band == 50 {
            &mut self._50
        } else if band == 100 {
            &mut self._100
        } else if band == 200 {
            &mut self._200
        } else if band == 500 {
            &mut self._500
        } else if band == 1000 {
            &mut self._1000
        } else if band == 2000 {
            &mut self._2000
        } else if band == 5000 {
            &mut self._5000
        } else {
            &mut self._10000
        };
        match *field {
            Some(c) => {
                *field = Some(c + 1);
            },
            None => {
                *field = Some(1);
                self.buckets.push(band);
            },
        }
        self.total = self.total + 1;
        proof {
            if old(self).spec_field(band as int) is None {
                assert forall|a: int, b: int|
                    0 <= a < b < self.buckets@.len() implies self.buckets@[a]
                    != self.buckets@[b] by {
                    if b == self.buckets@.len() - 1 {
                        assert(!old(self).buckets@.contains(band));
                        assert(old(self).buckets@[a] == self.buckets@[a]);
                    }
                };
            }
        }
    }
}

} // verus!
