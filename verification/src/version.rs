//! Version accounting: what a collection may reclaim, given what it read
//! from the reader slots.
use vstd::prelude::*;

verus! {

/// Default threshold for automatic reclamation (count of retired values).
pub const AUTO_RECLAIM_THRESHOLD: usize = 64;

/// Default interval, in collection cycles, between clean-ups of dead reader slots.
pub const DEFAULT_CLEANUP_INTERVAL: usize = 16;

/// The version a reader slot publishes while its reader is not pinned.
pub const INACTIVE_VERSION: usize = usize::MAX;

/// What a collection read from one reader slot: the version the reader is
/// pinned at (or `INACTIVE_VERSION`), and the last version it observed when
/// it last became inactive.
#[derive(Clone, Copy, Debug, PartialEq, Eq)]
pub struct SlotReading {
    pub active: usize,
    pub quiescent: usize,
}

/// The oldest version that one reader may still be looking at, as far as a
/// collection at `current` can tell: its pinned version when it is pinned; its
/// quiescent version when it is inactive but has not yet observed `current`;
/// otherwise nothing older than `current`.
pub open spec fn reader_floor(r: SlotReading, current: usize) -> int {
    if r.active != INACTIVE_VERSION {
        r.active as int
    } else if r.quiescent < current {
        r.quiescent as int
    } else {
        current as int
    }
}

/// `m` is the minimum of `current` and of the floors of all `readings`.
pub open spec fn is_min_active(m: int, current: usize, readings: Seq<SlotReading>) -> bool {
    &&& m <= current
    &&& forall|i: int| 0 <= i < readings.len() ==> m <= #[trigger] reader_floor(readings[i], current)
    &&& (m == current || exists|i: int|
        0 <= i < readings.len() && m == #[trigger] reader_floor(readings[i], current))
}

/// The newest version a collection at `current` may reclaim below: the value
/// retired by the latest store (whose version is `current - 1`) is always kept.
pub open spec fn keep_previous_bound(current: usize) -> int {
    if current > 0 {
        current - 1
    } else {
        0
    }
}

/// The version below which a collection at `current` reclaims, once it has
/// computed the minimum active version `min_active`.
pub open spec fn reclaim_limit(min_active: int, current: usize) -> int {
    if min_active <= keep_previous_bound(current) {
        min_active
    } else {
        keep_previous_bound(current)
    }
}

/// The floor of a single reading.
pub fn floor_of(r: SlotReading, current: usize) -> (f: usize)
    ensures
        f == reader_floor(r, current),
{
    if r.active != INACTIVE_VERSION {
        r.active
    } else if r.quiescent < current {
        r.quiescent
    } else {
        current
    }
}

/// The minimum version that any reader may still observe: the minimum of
/// `current` and of the floor of every reading.
pub fn min_active_version(current: usize, readings: &Vec<SlotReading>) -> (m: usize)
    ensures
        is_min_active(m as int, current, readings@),
{
    let mut m = current;
    let mut i: usize = 0;
    while i < readings.len()
        invariant
            i <= readings.len(),
            m <= current,
            forall|j: int| 0 <= j < i ==> m <= #[trigger] reader_floor(readings@[j], current),
            m == current || exists|j: int|
                0 <= j < i && m == #[trigger] reader_floor(readings@[j], current),
        decreases readings.len() - i,
    {
        let f = floor_of(readings[i], current);
        if f < m {
            m = f;
        }
        i = i + 1;
    }
    m
}

/// The version below which to reclaim: `min_active`, but never past the
/// value retired by the latest store.
pub fn limit_for(min_active: usize, current: usize) -> (l: usize)
    ensures
        l == reclaim_limit(min_active as int, current),
{
    let keep = if current > 0 {
        current - 1
    } else {
        0
    };
    if min_active <= keep {
        min_active
    } else {
        keep
    }
}

/// Whether collection number `counter` also removes the slots of dropped
/// readers: every `interval`-th collection does, and none does when
/// `interval` is 0.
pub open spec fn cleanup_scheduled(counter: usize, interval: usize) -> bool {
    interval > 0 && counter % interval == 0
}

/// Compute `cleanup_scheduled(counter, interval)`.
pub fn cleanup_due(counter: usize, interval: usize) -> (r: bool)
    ensures
        r == cleanup_scheduled(counter, interval),
{
    interval > 0 && counter % interval == 0
}

/// Whether a reader slot survives a clean-up: it does exactly when something
/// besides the list of readers still holds it (`holders` counts the list).
pub fn slot_kept(holders: usize) -> (r: bool)
    ensures
        r == (holders > 1),
{
    holders > 1
}

/// A slot is dead when only the list of readers holds it and its reader is
/// not pinned.
pub open spec fn slot_is_dead(holders: usize, r: SlotReading) -> bool {
    holders == 1 && r.active == INACTIVE_VERSION
}

/// Some slot is dead, by its count of holders and its reading.
pub open spec fn some_slot_dead(holders: Seq<usize>, readings: Seq<SlotReading>) -> bool {
    exists|i: int| 0 <= i < holders.len() && #[trigger] slot_is_dead(holders[i], readings[i])
}

/// Compute `slot_is_dead(holders, r)`.
pub fn slot_dead(holders: usize, r: SlotReading) -> (d: bool)
    ensures
        d == slot_is_dead(holders, r),
{
    holders == 1 && r.active == INACTIVE_VERSION
}

/// The slots, in order, whose count of holders is above one.
pub open spec fn survivors<A>(slots: Seq<A>, holders: Seq<usize>) -> Seq<A>
    decreases slots.len(),
{
    if slots.len() == 0 || holders.len() == 0 {
        Seq::empty()
    } else {
        let rest = survivors(slots.drop_last(), holders.drop_last());
        if holders.last() > 1 {
            rest.push(slots.last())
        } else {
            rest
        }
    }
}

/// A clean-up keeps exactly the slots held elsewhere too: each slot whose
/// count of holders is above one is among the survivors, and each survivor is
/// such a slot.
pub proof fn lemma_survivors_are_held<A>(slots: Seq<A>, holders: Seq<usize>)
    requires
        slots.len() == holders.len(),
    ensures
        forall|i: int| 0 <= i < slots.len() && holders[i] > 1 ==> survivors(slots, holders).contains(
            #[trigger] slots[i],
        ),
        forall|x: A| #[trigger]
            survivors(slots, holders).contains(x) ==> exists|i: int|
                0 <= i < slots.len() && holders[i] > 1 && slots[i] == x,
    decreases slots.len(),
{
    if slots.len() > 0 {
        let s0 = slots.drop_last();
        let h0 = holders.drop_last();
        lemma_survivors_are_held(s0, h0);
        let rest = survivors(s0, h0);
        let n = slots.len() - 1;
        assert forall|i: int| 0 <= i < slots.len() && holders[i] > 1 implies survivors(
            slots,
            holders,
        ).contains(#[trigger] slots[i]) by {
            if i < n {
                assert(s0[i] == slots[i] && h0[i] == holders[i]);
                assert(rest.contains(s0[i]));
                let k = choose|k: int| 0 <= k < rest.len() && rest[k] == s0[i];
                if holders.last() > 1 {
                    assert(survivors(slots, holders)[k] == slots[i]);
                }
            } else {
                assert(survivors(slots, holders).last() == slots[i]);
            }
        }
        assert forall|x: A| #[trigger]
            survivors(slots, holders).contains(x) implies exists|i: int|
                0 <= i < slots.len() && holders[i] > 1 && slots[i] == x by {
            let k = choose|k: int| 0 <= k < survivors(slots, holders).len() && survivors(slots, holders)[k] == x;
            if k < rest.len() {
                assert(rest[k] == x);
                assert(rest.contains(x));
                let i = choose|i: int| 0 <= i < s0.len() && h0[i] > 1 && s0[i] == x;
                assert(slots[i] == x && holders[i] > 1);
            } else {
                assert(slots[n] == x && holders[n] > 1);
            }
        }
    }
}

} // verus!
