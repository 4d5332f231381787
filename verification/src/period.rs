//! Slots, epochs and sync-committee periods.

use vstd::prelude::*;

verus! {

/// Number of slots in one epoch.
pub const SLOTS_PER_EPOCH: u64 = 32;

/// Number of epochs in one sync-committee period.
pub const EPOCHS_PER_SYNC_COMMITTEE_PERIOD: u64 = 256;

/// The epoch a slot belongs to.
pub open spec fn epoch_of(slot: nat) -> nat {
    slot / 32
}

/// The sync-committee period a slot belongs to: the period of its epoch.
pub open spec fn sync_period_of(slot: nat) -> nat {
    epoch_of(slot) / 256
}

/// Maps a slot to the index of the sync-committee period that contains it.
pub fn calc_sync_period(slot: u64) -> (period: u64)
    ensures
        period == sync_period_of(slot as nat),
        period == (slot as nat / 32) / 256,
{
    let epoch: u64 = slot / SLOTS_PER_EPOCH;
    epoch / EPOCHS_PER_SYNC_COMMITTEE_PERIOD
}

/// A period spans exactly 8192 consecutive slots: the slots of period `p` are
/// those from `8192 * p` up to, and not including, `8192 * (p + 1)`.
pub proof fn sync_period_bounds(slot: nat)
    ensures
        sync_period_of(slot) == slot / 8192,
        8192 * sync_period_of(slot) <= slot < 8192 * (sync_period_of(slot) + 1),
{
    assert((slot / 32) / 256 == slot / 8192) by (nonlinear_arith);
}

} // verus!
