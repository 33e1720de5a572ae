//! Readers: the slot each reader publishes its version in, the per-thread
//! `LocalReader`, and the `PinGuard` through which a pinned value is read.
use crate::sync::{
    atomic_load, atomic_store, cell_get, cell_set, lock, locked_mut, read_lock, read_locked,
    spin_hint,
};
use crate::version::INACTIVE_VERSION;
use antidote::{Mutex, RwLock};
use std::cell::Cell;
use std::ops::Deref;
use std::sync::atomic::{AtomicUsize, Ordering};
use std::sync::Arc;
use vstd::prelude::*;

verus! {

/// A slot allocated for one reader to record the version it is reading.
pub struct ReaderSlot {
    /// The version the reader is pinned at, or `INACTIVE_VERSION`.
    pub(crate) active_version: AtomicUsize,
    /// The version the reader was pinned at when it last became inactive.
    pub(crate) quiescent_version: AtomicUsize,
    /// How many clones separate the slot's reader from a reader made by
    /// `SwmrCell::local`; it tells a reader's slot from its clone's.
    pub(crate) generation: Ghost<nat>,
}

/// The state shared between the writer and all readers of one cell.
pub struct SharedState {
    /// The version of the value last stored; only the writer advances it.
    pub(crate) global_version: AtomicUsize,
    /// The minimum version that the last collection found any reader could observe.
    pub(crate) min_active_version: AtomicUsize,
    /// Every registered reader slot.
    pub(crate) readers: Mutex<Vec<Arc<ReaderSlot>>>,
}

/// The pin count of a reader after one more pin (saturating at `usize::MAX`,
/// a count no reader reaches), and whether this pin is the outermost one,
/// which publishes a freshly read version in the reader's slot.
pub fn pin_step(count: usize) -> (r: (usize, bool))
    ensures
        r.0 == (if count < usize::MAX { count + 1 } else { count as int }),
        r.1 == (count == 0),
{
    (count.saturating_add(1), count == 0)
}

/// Read `a` with `Acquire` ordering.
pub(crate) fn load_acquire(a: &AtomicUsize) -> usize {
    atomic_load(a, Ordering::Acquire)
}

/// Whether a reader with pin count `count` is pinned.
pub fn pin_held(count: usize) -> (r: bool)
    ensures
        r == (count > 0),
{
    count > 0
}

/// Whether a pin attempt is over: the version the reader's slot holds is at
/// or above the minimum version published by the last collection, or the
/// attempt has waited its last round.
pub fn pin_confirmed(pinned: usize, min_active: usize, rounds: usize) -> (r: bool)
    ensures
        r == (pinned >= min_active || rounds == usize::MAX),
{
    pinned >= min_active || rounds == usize::MAX
}

/// The pin count of a reader after one pin is released, and whether the
/// reader becomes inactive: only the release of its last pin does. Releasing
/// with no pin held changes nothing.
pub open spec fn unpin_effect(count: usize) -> (usize, bool) {
    if count == 0 {
        (0usize, false)
    } else {
        ((count - 1) as usize, count == 1)
    }
}

/// Compute `unpin_effect(count)`.
pub fn unpin_step(count: usize) -> (r: (usize, bool))
    ensures
        r == unpin_effect(count),
    opens_invariants none
    no_unwind
{
    if count == 0 {
        (0, false)
    } else {
        (count - 1, count == 1)
    }
}

/// The pin count after `k` successive releases from `count`, while none of
/// them has made the reader inactive; `None` once one has.
pub open spec fn after_releases(count: usize, k: nat) -> Option<usize>
    decreases k,
{
    if k == 0 {
        Some(count)
    } else {
        match after_releases(count, (k - 1) as nat) {
            Some(c) => if unpin_effect(c).1 {
                None
            } else {
                Some(unpin_effect(c).0)
            },
            None => None,
        }
    }
}

/// Pins nest: a reader holding `n` pins stays pinned, with `n - k` pins,
/// through its first `n - 1` releases, and its `n`-th release makes it
/// inactive.
pub proof fn lemma_pinned_until_last_release(n: usize, k: nat)
    requires
        0 < n,
        k <= n,
    ensures
        k < n ==> after_releases(n, k) == Some((n - k) as usize),
        k == n ==> after_releases(n, k) is None,
    decreases k,
{
    if k > 0 {
        lemma_pinned_until_last_release(n, (k - 1) as nat);
    }
}

/// Release one pin of a reader whose pin count is `count`, writing its slot
/// when, and only when, this is the release of its last pin. Returns the new
/// count and the writes made to the slot: the quiescent version (the version
/// the slot was pinned at) and the active version, which becomes
/// `INACTIVE_VERSION`. A release with more than one pin held writes nothing.
pub fn release_pin(slot: &ReaderSlot, count: usize) -> (r: (usize, Ghost<Option<(usize, usize)>>))
    ensures
        r.0 == (if count == 0 { 0 } else { count - 1 }),
        (r.1@ is Some) == (count == 1),
        r.1@ matches Some(w) ==> w.1 == INACTIVE_VERSION,
    opens_invariants none
    no_unwind
{
    let (next_count, becomes_inactive) = unpin_step(count);
    if becomes_inactive {
        let pinned = atomic_load(&slot.active_version, Ordering::Relaxed);
        let inactive: usize = INACTIVE_VERSION;
        atomic_store(&slot.quiescent_version, pinned, Ordering::Release);
        atomic_store(&slot.active_version, inactive, Ordering::Release);
        (next_count, Ghost(Some((pinned, inactive))))
    } else {
        (next_count, Ghost(None))
    }
}

/// Readers of different generations have different slots, so pinning or
/// releasing one never writes the other's slot; in particular a reader and
/// its clone never share a slot.
pub proof fn lemma_generations_separate_slots<T>(a: LocalReader<T>, b: LocalReader<T>)
    requires
        a.generation() != b.generation(),
    ensures
        a.slot() != b.slot(),
{
}

/// The handle through which published values are read.
pub type Published<T> = RwLock<Arc<T>>;

/// A reader thread's local version state.
///
/// Each reader thread creates its own `LocalReader` through `SwmrCell::local`
/// and reuses it; it is not `Sync` and stays on that thread.
#[verifier::reject_recursive_types(T)]
pub struct LocalReader<T: 'static> {
    slot: Arc<ReaderSlot>,
    shared: Arc<SharedState>,
    ptr: Arc<Published<T>>,
    pin_count: Cell<usize>,
    initial: Ghost<(usize, usize)>,
    registered: Ghost<Arc<ReaderSlot>>,
}

impl<T: 'static> LocalReader<T> {
    /// The shared state and the published value this reader reads from.
    pub closed spec fn source(&self) -> (Arc<SharedState>, Arc<Published<T>>) {
        (self.shared, self.ptr)
    }

    /// How many clones separate this reader from one made by `SwmrCell::local`.
    pub closed spec fn generation(&self) -> nat {
        self.slot.generation@
    }

    /// This reader's own slot.
    pub closed spec fn slot(&self) -> Arc<ReaderSlot> {
        self.slot
    }

    /// The versions this reader's slot was created with: the active version
    /// and the quiescent version.
    pub closed spec fn initial_versions(&self) -> (usize, usize) {
        self.initial@
    }

    /// The slot this reader appended to the list of readers when it was created.
    pub closed spec fn registered_slot(&self) -> Arc<ReaderSlot> {
        self.registered@
    }

    /// Create a reader of `shared` and `ptr` and register its slot, inactive,
    /// in the list of readers.
    pub(crate) fn new(shared: Arc<SharedState>, ptr: Arc<Published<T>>, generation: Ghost<nat>) -> (r: Self)
        ensures
            r.source() == (shared, ptr),
            r.generation() == generation@,
            r.initial_versions() == (INACTIVE_VERSION, 0usize),
            r.registered_slot() == r.slot(),
    {
        let active: usize = INACTIVE_VERSION;
        let quiescent: usize = 0;
        let slot = Arc::new(
            ReaderSlot {
                active_version: AtomicUsize::new(active),
                quiescent_version: AtomicUsize::new(quiescent),
                generation,
            },
        );
        let ghost appended: Arc<ReaderSlot>;
        {
            let mut readers = lock(&shared.readers);
            let list = locked_mut(&mut readers);
            list.push(slot.clone());
            proof {
                appended = list@.last();
            }
        }
        LocalReader {
            slot,
            shared,
            ptr,
            pin_count: Cell::new(0),
            initial: Ghost((active, quiescent)),
            registered: Ghost(appended),
        }
    }

    /// Pin this reader to the current version and capture the current value.
    ///
    /// Pins nest: while a guard of this reader is alive, a further `pin` keeps
    /// the version already published and the reader stays pinned until every
    /// guard is dropped. The pinned version is confirmed against the minimum
    /// version of the last collection, and re-read while it lies below it (the
    /// wait is bounded by `usize::MAX` rounds, far beyond any run).
    pub fn pin(&self) -> (g: PinGuard<'_, T>)
        ensures
            g.reader() == self,
            g.wait_ran_out() || g.pinned_version() >= g.confirmed_min(),
    {
        let pin_count = cell_get(&self.pin_count);
        let (next_count, outermost) = pin_step(pin_count);
        let mut rounds: usize = 0;
        let mut pinned: usize = 0;
        let ghost mut checked_min: usize = 0;
        loop
            invariant_except_break
                rounds <= usize::MAX,
            ensures
                rounds == usize::MAX || pinned >= checked_min,
            decreases usize::MAX - rounds,
        {
            let current = atomic_load(&self.shared.global_version, Ordering::Acquire);
            if outermost {
                atomic_store(&self.slot.active_version, current, Ordering::Release);
            }
            let min_active = atomic_load(&self.shared.min_active_version, Ordering::Acquire);
            pinned = atomic_load(&self.slot.active_version, Ordering::Acquire);
            proof {
                checked_min = min_active;
            }
            if pin_confirmed(pinned, min_active, rounds) {
                break;
            }
            spin_hint();
            rounds = rounds + 1;
        }
        cell_set(&self.pin_count, next_count);
        let value = {
            let published = read_lock(&self.ptr);
            read_locked(&published).clone()
        };
        PinGuard {
            local: self,
            value,
            version: pinned,
            confirmed_min: Ghost(checked_min),
            wait_ran_out: Ghost(rounds == usize::MAX),
        }
    }

    /// Whether a guard of this reader is alive.
    pub fn is_pinned(&self) -> bool {
        pin_held(cell_get(&self.pin_count))
    }

    /// The current global version, as this reader reads it now.
    pub fn version(&self) -> usize {
        atomic_load(&self.shared.global_version, Ordering::Acquire)
    }
}

impl<T: 'static> Clone for LocalReader<T> {
    /// A new reader of the same cell, with a slot of its own.
    fn clone(&self) -> (r: Self)
        ensures
            r.source() == self.source(),
            r.initial_versions() == (INACTIVE_VERSION, 0usize),
            r.registered_slot() == r.slot(),
            r.generation() == self.generation() + 1,
            r.slot() != self.slot(),
    {
        Self::new(self.shared.clone(), self.ptr.clone(), Ghost(self.generation() + 1))
    }
}

/// A guard that keeps its reader pinned to a version and holds the value
/// that was current when it was pinned.
#[must_use]
#[verifier::reject_recursive_types(T)]
pub struct PinGuard<'a, T: 'static> {
    local: &'a LocalReader<T>,
    value: Arc<T>,
    version: usize,
    confirmed_min: Ghost<usize>,
    wait_ran_out: Ghost<bool>,
}

impl<'a, T: 'static> PinGuard<'a, T> {
    /// The reader this guard pins.
    pub closed spec fn reader(&self) -> &'a LocalReader<T> {
        self.local
    }

    /// The value captured when the guard was created.
    pub closed spec fn value(&self) -> T {
        *self.value
    }

    /// The version the reader was pinned at when the guard was created.
    pub closed spec fn pinned_version(&self) -> usize {
        self.version
    }

    /// The minimum version, published by a collection, that the pin checked
    /// its version against.
    pub closed spec fn confirmed_min(&self) -> usize {
        self.confirmed_min@
    }

    /// Whether the pin gave up waiting for its version to reach that minimum.
    pub closed spec fn wait_ran_out(&self) -> bool {
        self.wait_ran_out@
    }

    /// The version this guard is pinned at.
    pub fn version(&self) -> (v: usize)
        ensures
            v == self.pinned_version(),
    {
        self.version
    }
}

impl<'a, T: 'static> Deref for PinGuard<'a, T> {
    type Target = T;

    /// The value that was current when this guard was created; it does not
    /// change while the guard lives.
    fn deref(&self) -> (r: &T)
        ensures
            *r == self.value(),
    {
        &*self.value
    }
}

impl<'a, T: 'static> Clone for PinGuard<'a, T> {
    /// A further guard of the same reader, version and value; the reader stays
    /// pinned until both are dropped.
    fn clone(&self) -> (g: Self)
        ensures
            g.reader() == self.reader(),
            g.value() == self.value(),
            g.pinned_version() == self.pinned_version(),
            g.confirmed_min() == self.confirmed_min(),
            g.wait_ran_out() == self.wait_ran_out(),
    {
        let pin_count = cell_get(&self.local.pin_count);
        let (next_count, _) = pin_step(pin_count);
        cell_set(&self.local.pin_count, next_count);
        PinGuard {
            local: self.local,
            value: self.value.clone(),
            version: self.version,
            confirmed_min: self.confirmed_min,
            wait_ran_out: self.wait_ran_out,
        }
    }
}

impl<'a, T: 'static> Drop for PinGuard<'a, T> {
    /// Release one pin; when it is the last, record the pinned version as the
    /// reader's quiescent version and mark the reader inactive.
    fn drop(&mut self)
        opens_invariants none
        no_unwind
    {
        let pin_count = cell_get(&self.local.pin_count);
        let (next_count, _) = release_pin(&self.local.slot, pin_count);
        cell_set(&self.local.pin_count, next_count);
    }
}

} // verus!
