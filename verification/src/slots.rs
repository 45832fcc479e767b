//! Slot selection: drawing a proposer slot from VRF entropy.
//!
//! The draw mixes the entropy with the round offset, reduces the mixed
//! word modulo the number of enabled slots, and returns the chosen enabled
//! slot. The whole computation is a function of its arguments alone, so
//! every node that sees the same entropy, offset and punished set picks
//! the same slot.

use vstd::prelude::*;
use crate::policy::SLOTS;
use crate::types::{DisabledSlots, ValidatorSlotBand, VrfEntropy, enabled_below,
    lemma_enabled_below_bounds, lemma_enabled_below_monotone};

verus! {

/// A proposer slot: its index, the index of the band that contains it,
/// and the validator that owns the band.
#[derive(Clone, Copy, Debug, PartialEq, Eq, Structural)]
pub struct Slot {
    pub number: u16,
    pub band: u16,
    pub validator: ValidatorSlotBand,
}

/// Mixes the round offset into the entropy word. Plain xor-shift
/// diffusion; the exact bit pattern is part of the protocol.
pub open spec fn mix_entropy(entropy: u64, offset: u32) -> u64 {
    let x0 = entropy ^ (offset as u64) ^ ((offset as u64) << 32u64);
    let x1 = x0 ^ (x0 >> 29u64);
    let x2 = x1 ^ (x1 << 17u64);
    x2 ^ (x2 >> 19u64)
}

/// The slot drawn by `(offset, entropy, disabled)`: the unique enabled
/// slot preceded by exactly `mixed mod enabled-count` enabled slots.
pub open spec fn is_selected_slot(
    offset: u32,
    entropy: VrfEntropy,
    flags: Seq<bool>,
    slot: u16,
) -> bool {
    &&& slot < SLOTS
    &&& !flags[slot as int]
    &&& enabled_below(flags, slot as int) == mix_entropy(entropy.value, offset) as int % enabled_below(
        flags,
        SLOTS as int,
    )
}

/// At most one slot satisfies the selection characterization: the draw is
/// deterministic, so two nodes with identical inputs return identical
/// slots.
pub proof fn lemma_slot_selection_deterministic(
    offset: u32,
    entropy: VrfEntropy,
    flags: Seq<bool>,
    slot1: u16,
    slot2: u16,
)
    requires
        is_selected_slot(offset, entropy, flags, slot1),
        is_selected_slot(offset, entropy, flags, slot2),
    ensures
        slot1 == slot2,
{
    if slot1 < slot2 {
        lemma_enabled_below_monotone(flags, slot1 as int + 1, slot2 as int);
    } else if slot2 < slot1 {
        lemma_enabled_below_monotone(flags, slot2 as int + 1, slot1 as int);
    }
}

/// Exec mirror of `mix_entropy`.
fn mix_entropy_exec(entropy: u64, offset: u32) -> (r: u64)
    ensures
        r == mix_entropy(entropy, offset),
{
    let x0 = entropy ^ (offset as u64) ^ ((offset as u64) << 32u64);
    let x1 = x0 ^ (x0 >> 29u64);
    let x2 = x1 ^ (x1 << 17u64);
    x2 ^ (x2 >> 19u64)
}

/// Draws the proposer slot for a round from the VRF entropy, skipping
/// punished slots. Identical inputs give identical outputs on every node.
///
/// Upstream policy guarantees that at least one slot stays enabled; a call
/// with every slot disabled is a programmer error and is excluded here.
pub fn compute_slot_number(offset: u32, vrf_entropy: VrfEntropy, disabled_slots: &DisabledSlots) -> (r: u16)
    requires
        disabled_slots.wf(),
        disabled_slots.spec_enabled_count() > 0,
    ensures
        is_selected_slot(offset, vrf_entropy, disabled_slots.flags@, r),
{
    let enabled = disabled_slots.count_enabled();
    let mixed = mix_entropy_exec(vrf_entropy.value, offset);
    let k = (mixed % (enabled as u64)) as u16;
    let ghost flags = disabled_slots.flags@;
    let mut i: u16 = 0;
    let mut c: u16 = 0;
    while i < SLOTS
        invariant
            disabled_slots.wf(),
            flags == disabled_slots.flags@,
            i <= SLOTS,
            c == enabled_below(flags, i as int),
            c <= k,
            k < enabled,
            enabled == enabled_below(flags, SLOTS as int),
            k == mix_entropy(vrf_entropy.value, offset) as int % enabled_below(
                flags,
                SLOTS as int,
            ),
        decreases SLOTS - i,
    {
        proof {
            lemma_enabled_below_bounds(flags, i as int);
        }
        if !disabled_slots.is_disabled(i) {
            if c == k {
                return i;
            }
            c = c + 1;
        }
        i = i + 1;
    }
    proof {
        assert(false);
    }
    0
}

} // verus!
