//! Plain-value models of the primitive consensus data.
//!
//! The chain logic reads only identity and order from a 32-byte hash, and
//! only an unbiased word from a VRF output, so those are what the types
//! here hold. The producer of a block computes the real digests and seeds;
//! the consensus core treats them as opaque identifiers.

use vstd::prelude::*;
use crate::policy::SLOTS;

verus! {

/// Identifier of a header or body on the wire: what the consensus logic
/// reads from a Blake2b digest.
#[derive(Clone, Copy, Debug, PartialEq, Eq, Structural, Hash)]
pub struct Digest {
    pub value: u64,
}

impl Digest {
    /// Strict order used to pick the canonical form of an equivocation
    /// proof.
    pub fn lt(&self, other: &Digest) -> (r: bool)
        ensures
            r == (self.value < other.value),
    {
        self.value < other.value
    }
}

/// Identity of a validator: what the logic reads from its address.
#[derive(Clone, Copy, Debug, PartialEq, Eq, Structural, Hash)]
pub struct ValidatorId {
    pub value: u64,
}

/// Unbiased word drawn from a block's verifiable random seed.
#[derive(Clone, Copy, Debug, PartialEq, Eq, Structural)]
pub struct VrfEntropy {
    pub value: u64,
}

/// A block's verifiable random seed; slot selection reads only its entropy.
#[derive(Clone, Copy, Debug, PartialEq, Eq, Structural)]
pub struct VrfSeed {
    pub entropy: VrfEntropy,
}

impl VrfSeed {
    /// The entropy word that drives slot selection.
    pub fn entropy(&self) -> (r: VrfEntropy)
        ensures
            r == self.entropy,
    {
        self.entropy
    }
}

/// An element-wise copy of a vector of plain values.
pub fn copy_vec<T: Copy>(v: &Vec<T>) -> (r: Vec<T>)
    ensures
        r@ == v@,
{
    let mut r: Vec<T> = Vec::new();
    let mut i: usize = 0;
    while i < v.len()
        invariant
            i <= v.len(),
            r@ =~= v@.take(i as int),
        decreases v.len() - i,
    {
        r.push(v[i]);
        i = i + 1;
    }
    proof {
        assert(v@.take(v@.len() as int) =~= v@);
    }
    r
}

/// One validator together with its contiguous band of slots
/// `[start, end)`.
#[derive(Clone, Copy, Debug, PartialEq, Eq, Structural)]
pub struct ValidatorSlotBand {
    pub address: ValidatorId,
    pub voting_key: u64,
    pub start: u16,
    pub end: u16,
}

/// The ordered validator set of one epoch: contiguous, disjoint slot bands
/// that together cover `[0, SLOTS)`.
#[derive(Clone, Debug, PartialEq, Eq)]
pub struct Validators {
    pub bands: Vec<ValidatorSlotBand>,
}

impl Validators {
    /// Bands are nonempty, adjacent, and cover all slots.
    pub open spec fn wf(&self) -> bool {
        &&& self.bands.len() >= 1
        &&& self.bands[0].start == 0
        &&& self.bands[self.bands.len() - 1].end == SLOTS
        &&& forall|i: int| 0 <= i < self.bands.len() ==> self.bands[i].start < self.bands[i].end
        &&& forall|i: int|
            0 < i < self.bands.len() ==> self.bands[i].start == self.bands[i - 1].end
    }

    /// A copy of the set, known element by element.
    pub fn duplicate(&self) -> (r: Validators)
        ensures
            r.bands@ == self.bands@,
    {
        let bands = copy_vec(&self.bands);
        Validators { bands }
    }

    /// Number of validators in the set.
    pub fn num_validators(&self) -> (r: usize)
        ensures
            r == self.bands.len(),
    {
        self.bands.len()
    }

    /// Bands earlier in the order end no later than later bands begin.
    pub proof fn lemma_bands_ordered(&self, i: int, j: int)
        requires
            self.wf(),
            0 <= i < j < self.bands.len(),
        ensures
            self.bands[i].end <= self.bands[j].start,
        decreases j - i,
    {
        if j == i + 1 {
        } else {
            self.lemma_bands_ordered(i, j - 1);
        }
    }

    /// Band starts grow at least as fast as their index.
    pub proof fn lemma_band_start_ge_index(&self, i: int)
        requires
            self.wf(),
            0 <= i < self.bands.len(),
        ensures
            self.bands[i].start >= i,
        decreases i,
    {
        if i > 0 {
            self.lemma_band_start_ge_index(i - 1);
        }
    }

    /// There are never more bands than slots.
    pub proof fn lemma_band_count(&self)
        requires
            self.wf(),
        ensures
            self.bands.len() <= SLOTS,
    {
        self.lemma_band_start_ge_index(self.bands.len() - 1);
    }

    /// Every slot lies in exactly one band; two bands that both contain a
    /// slot are the same band.
    pub proof fn lemma_band_unique(&self, slot: u16, i: int, j: int)
        requires
            self.wf(),
            0 <= i < self.bands.len(),
            0 <= j < self.bands.len(),
            self.bands[i].start <= slot < self.bands[i].end,
            self.bands[j].start <= slot < self.bands[j].end,
        ensures
            i == j,
    {
        if i < j {
            self.lemma_bands_ordered(i, j);
        } else if j < i {
            self.lemma_bands_ordered(j, i);
        }
    }

    /// Index of the band that contains `slot`, found by binary search.
    pub fn get_band_from_slot(&self, slot: u16) -> (r: usize)
        requires
            self.wf(),
            slot < SLOTS,
        ensures
            r < self.bands.len(),
            self.bands[r as int].start <= slot < self.bands[r as int].end,
    {
        let mut lo: usize = 0;
        let mut hi: usize = self.bands.len() - 1;
        while lo < hi
            invariant
                self.wf(),
                slot < SLOTS,
                lo <= hi < self.bands.len(),
                self.bands[lo as int].start <= slot,
                slot < self.bands[hi as int].end,
            decreases hi - lo,
        {
            let mid = lo + (hi - lo + 1) / 2;
            if self.bands[mid].start <= slot {
                lo = mid;
            } else {
                hi = mid - 1;
                proof {
                    if hi + 1 < self.bands.len() - 1 {
                    }
                }
            }
        }
        proof {
            if slot >= self.bands[lo as int].end {
                if lo + 1 < self.bands.len() {
                    assert(self.bands[lo as int + 1].start == self.bands[lo as int].end);
                }
            }
        }
        lo
    }

    /// The validator that owns `slot`.
    pub fn get_validator_by_slot_number(&self, slot: u16) -> (r: ValidatorSlotBand)
        requires
            self.wf(),
            slot < SLOTS,
        ensures
            exists|i: int|
                0 <= i < self.bands.len() && r == self.bands[i] && self.bands[i].start <= slot
                    < self.bands[i].end,
    {
        let i = self.get_band_from_slot(slot);
        self.bands[i]
    }
}

/// The slot indices punished at a batch boundary, applied to slot
/// selection in the following batch. One flag per slot.
#[derive(Clone, Debug, PartialEq, Eq)]
pub struct DisabledSlots {
    pub flags: Vec<bool>,
}

/// How many of the first `n` flags are `false`, that is, how many of those
/// slots remain enabled.
pub open spec fn enabled_below(flags: Seq<bool>, n: int) -> int
    decreases n,
{
    if n <= 0 {
        0
    } else {
        enabled_below(flags, n - 1) + if flags[n - 1] {
            0int
        } else {
            1int
        }
    }
}

/// The enabled count over a prefix never exceeds the prefix length and
/// never decreases as the prefix grows.
pub proof fn lemma_enabled_below_bounds(flags: Seq<bool>, n: int)
    requires
        0 <= n,
    ensures
        0 <= enabled_below(flags, n) <= n,
    decreases n,
{
    if n > 0 {
        lemma_enabled_below_bounds(flags, n - 1);
    }
}

/// Growing the prefix can raise the enabled count by at most the number of
/// added slots.
pub proof fn lemma_enabled_below_monotone(flags: Seq<bool>, m: int, n: int)
    requires
        0 <= m <= n,
    ensures
        enabled_below(flags, m) <= enabled_below(flags, n) <= enabled_below(flags, m) + (n - m),
    decreases n - m,
{
    if m < n {
        lemma_enabled_below_monotone(flags, m, n - 1);
    }
}

impl DisabledSlots {
    /// One flag per slot.
    pub open spec fn wf(&self) -> bool {
        self.flags.len() == SLOTS
    }

    /// Number of enabled slots, in spec form.
    pub open spec fn spec_enabled_count(&self) -> int {
        enabled_below(self.flags@, SLOTS as int)
    }

    /// A copy of the set, known flag by flag.
    pub fn duplicate(&self) -> (r: DisabledSlots)
        ensures
            r.flags@ == self.flags@,
    {
        let flags = copy_vec(&self.flags);
        DisabledSlots { flags }
    }

    /// A set with every slot enabled.
    pub fn none_disabled() -> (r: DisabledSlots)
        ensures
            r.wf(),
            forall|i: int| 0 <= i < SLOTS ==> !r.flags@[i],
    {
        let mut flags: Vec<bool> = Vec::new();
        let mut i: usize = 0;
        while i < SLOTS as usize
            invariant
                flags.len() == i,
                i <= SLOTS as usize,
                forall|j: int| 0 <= j < i ==> !flags@[j],
            decreases SLOTS as usize - i,
        {
            flags.push(false);
            i = i + 1;
        }
        DisabledSlots { flags }
    }

    /// Whether `slot` is disabled.
    pub fn is_disabled(&self, slot: u16) -> (r: bool)
        requires
            self.wf(),
            slot < SLOTS,
        ensures
            r == self.flags@[slot as int],
    {
        self.flags[slot as usize]
    }

    /// Number of slots that remain enabled.
    pub fn count_enabled(&self) -> (r: u16)
        requires
            self.wf(),
        ensures
            r == self.spec_enabled_count(),
    {
        let mut count: u16 = 0;
        let mut i: usize = 0;
        while i < SLOTS as usize
            invariant
                self.wf(),
                i <= SLOTS as usize,
                count == enabled_below(self.flags@, i as int),
                count <= i,
            decreases SLOTS as usize - i,
        {
            proof {
                lemma_enabled_below_bounds(self.flags@, i as int);
            }
            if !self.flags[i] {
                count = count + 1;
            }
            i = i + 1;
        }
        count
    }
}

} // verus!
