use vstd::prelude::*;

verus! {

/// Number of controller slots the platform exposes; slots are numbered
/// `0 .. XUSER_MAX_COUNT`. Slot 0 is reserved for the merged virtual
/// controller and is never probed as a physical input source.
pub const XUSER_MAX_COUNT: u32 = 4;

/// Smallest number of physical controllers worth merging.
pub const MIN_PADS: usize = 2;

/// Largest number of physical controllers the merge supports.
pub const MAX_PADS: usize = 3;

/// The active slot set that probing builds: the slots in `1 .. n` whose
/// probe succeeded, in increasing slot order. `probe_ok` is indexed by slot
/// number; its entry for slot 0 plays no part here.
pub open spec fn spec_active_slots(probe_ok: Seq<bool>, n: int) -> Seq<u32>
    decreases n,
{
    if n <= 1 {
        Seq::empty()
    } else if probe_ok[n - 1] {
        spec_active_slots(probe_ok, n - 1) + seq![(n - 1) as u32]
    } else {
        spec_active_slots(probe_ok, n - 1)
    }
}

/// The cardinality rule of validation: an active slot set is usable only
/// when its size lies within `[MIN_PADS, MAX_PADS]`.
pub open spec fn spec_pad_count_ok(n: int) -> bool {
    MIN_PADS <= n <= MAX_PADS
}

/// Probe outcome of every candidate slot, appending each present slot of
/// `1 .. XUSER_MAX_COUNT` to `pads` in slot order, then judge the resulting
/// count against `[MIN_PADS, MAX_PADS]`. `probe_ok[slot]` says whether the
/// physical-input query for that slot succeeded; a failed slot is simply
/// omitted. Returns whether validation passed; the caller decides how to
/// abort when it did not.
pub fn setup_pads(pads: &mut Vec<u32>, probe_ok: &Vec<bool>) -> (ok: bool)
    requires
        probe_ok@.len() == XUSER_MAX_COUNT,
    ensures
        final(pads)@ == old(pads)@ + spec_active_slots(probe_ok@, XUSER_MAX_COUNT as int),
        ok == spec_pad_count_ok(final(pads)@.len() as int),
{
    let ghost pads0: Seq<u32> = pads@;
    proof {
        assert(pads@ =~= pads0 + spec_active_slots(probe_ok@, 1));
    }
    let mut pad_num: u32 = 1;
    while pad_num < XUSER_MAX_COUNT
        invariant
            1 <= pad_num <= XUSER_MAX_COUNT,
            probe_ok@.len() == XUSER_MAX_COUNT,
            pads@ == pads0 + spec_active_slots(probe_ok@, pad_num as int),
        decreases XUSER_MAX_COUNT - pad_num,
    {
        if probe_ok[pad_num as usize] {
            pads.push(pad_num);
        }
        proof {
            assert(pads@ =~= pads0 + spec_active_slots(probe_ok@, pad_num as int + 1));
        }
        pad_num = pad_num + 1;
    }
    let n: usize = pads.len();
    MIN_PADS <= n && n <= MAX_PADS
}

/// Why discovery refused to start the merge.
#[derive(Clone, Copy, Debug, PartialEq, Eq, Structural)]
pub enum AbortReason {
    /// A physical controller already answers on slot 0, which the virtual
    /// controller must occupy: the operator has to disconnect everything
    /// and restart.
    SlotZeroOccupied,
    /// The number of discovered controllers lies outside
    /// `[MIN_PADS, MAX_PADS]`.
    WrongPadCount,
}

/// Result of the discovery and validation pass.
#[derive(Debug, PartialEq, Eq)]
pub enum DiscoveryOutcome {
    /// Discovery succeeded: the active slot set, fixed for the rest of the
    /// process, in increasing slot order.
    Validated(Vec<u32>),
    /// Discovery failed; no polling may begin.
    Aborted(AbortReason),
}

/// The discovery and validation pass over plain probe results.
///
/// `slot_zero_connected` is the answer of the precondition check made
/// before any probing: if a physical controller occupies slot 0 the pass
/// aborts at once, whatever the other slots report. Otherwise the slots
/// `1 .. XUSER_MAX_COUNT` are collected from `probe_ok` in order and the
/// count rule decides between a validated slot set and an abort.
pub fn run_discovery(slot_zero_connected: bool, probe_ok: &Vec<bool>) -> (r: DiscoveryOutcome)
    requires
        probe_ok@.len() == XUSER_MAX_COUNT,
    ensures
        slot_zero_connected ==> r == DiscoveryOutcome::Aborted(AbortReason::SlotZeroOccupied),
        (!slot_zero_connected && spec_pad_count_ok(
            spec_active_slots(probe_ok@, XUSER_MAX_COUNT as int).len() as int,
        )) ==> (r matches DiscoveryOutcome::Validated(pads) && pads@ == spec_active_slots(
            probe_ok@,
            XUSER_MAX_COUNT as int,
        )),
        (!slot_zero_connected && !spec_pad_count_ok(
            spec_active_slots(probe_ok@, XUSER_MAX_COUNT as int).len() as int,
        )) ==> r == DiscoveryOutcome::Aborted(AbortReason::WrongPadCount),
{
    if slot_zero_connected {
        return DiscoveryOutcome::Aborted(AbortReason::SlotZeroOccupied);
    }
    let mut pads: Vec<u32> = Vec::new();
    let ok: bool = setup_pads(&mut pads, probe_ok);
    proof {
        assert(pads@ =~= spec_active_slots(probe_ok@, XUSER_MAX_COUNT as int));
    }
    if ok {
        DiscoveryOutcome::Validated(pads)
    } else {
        DiscoveryOutcome::Aborted(AbortReason::WrongPadCount)
    }
}

} // verus!
