//! The gap-filling side of synchronisation: which heights one wave of
//! sync requests asks for.
use vstd::prelude::*;

verus! {

/// Most heights one sync wave asks for.
pub const SYNC_BATCH: u64 = 100;

/// The last height a wave asks for: `SYNC_BATCH` past the confirmed height,
/// and no further than any peer has announced.
pub open spec fn sync_target(current: u64, max: u64) -> int {
    if current + SYNC_BATCH < max {
        current + SYNC_BATCH
    } else {
        max as int
    }
}

/// Whether a wave starts: there is a gap and no wave is outstanding.
pub open spec fn wave_starts(current: u64, max: u64, syncing: bool) -> bool {
    current < sync_target(current, max) && !syncing
}

/// The heights one wave asks for, in order: every height in
/// `(current, sync_target(current, max)]`, or none.
pub open spec fn wave_heights(current: u64, max: u64, syncing: bool) -> Seq<u64> {
    if wave_starts(current, max, syncing) {
        Seq::new((sync_target(current, max) - current) as nat, |i: int| (current + 1 + i) as u64)
    } else {
        Seq::empty()
    }
}

/// The heights in `(current, sync_target(current, max)]`, in order.
pub fn sync_heights(current: u64, max: u64) -> (r: Vec<u64>)
    ensures
        r@ == wave_heights(current, max, false),
        r@.len() <= SYNC_BATCH,
        forall|i: int| 0 <= i < r@.len() ==> current < #[trigger] r@[i] && r@[i] <= max,
{
    let target: u64 = if current < max && max - current > SYNC_BATCH {
        current + SYNC_BATCH
    } else {
        max
    };
    let mut r: Vec<u64> = Vec::new();
    let mut h: u64 = current;
    while h < target
        invariant
            target as int == sync_target(current, max) || target <= current,
            target <= max,
            current <= h,
            h <= target || r@.len() == 0,
            r@.len() == h - current,
            forall|i: int| 0 <= i < r@.len() ==> #[trigger] r@[i] == current + 1 + i,
        decreases target - h,
    {
        h = h + 1;
        r.push(h);
    }
    assert(r@ =~= wave_heights(current, max, false));
    r
}

} // verus!
