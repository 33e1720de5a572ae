//! The writer side: `SwmrCell` and its builder.
use crate::garbage::{reclaimed_below, versions_increasing, GarbageSet};
use crate::reader::{LocalReader, Published, ReaderSlot, SharedState};
use crate::sync::{
    atomic_load, atomic_store, lock, locked, locked_mut, strong_count, write_lock, write_locked_mut,
};
use crate::reader::load_acquire;
use crate::version::{
    cleanup_due, cleanup_scheduled, is_min_active, lemma_survivors_are_held, limit_for, reader_floor,
    slot_dead, slot_is_dead, slot_kept, some_slot_dead, survivors, min_active_version, reclaim_limit,
    SlotReading, AUTO_RECLAIM_THRESHOLD, DEFAULT_CLEANUP_INTERVAL, INACTIVE_VERSION,
};
use antidote::{Mutex, RwLock};
use std::marker::PhantomData;
use std::sync::atomic::{AtomicUsize, Ordering};
use std::sync::Arc;
use vstd::prelude::*;

verus! {

/// A single-writer, multi-reader cell with version-based reclamation.
///
/// One writer stores values; any number of readers, each through its own
/// `LocalReader`, read the value that was current when they pinned. Each
/// store retires the previous value with the version it belonged to; a
/// collection drops the retired values that no reader can still observe.
#[verifier::reject_recursive_types(T)]
pub struct SwmrCell<T: 'static> {
    shared: Arc<SharedState>,
    ptr: Arc<Published<T>>,
    current: Arc<T>,
    version: usize,
    garbage: GarbageSet<Arc<T>>,
    auto_reclaim_threshold: Option<usize>,
    collection_counter: usize,
    cleanup_interval: usize,
    last_readings: Ghost<Seq<SlotReading>>,
    last_slots: Ghost<Seq<Arc<ReaderSlot>>>,
    last_holders: Ghost<Option<Seq<usize>>>,
    last_replacement: Ghost<Option<Seq<Arc<ReaderSlot>>>>,
    published: Ghost<Arc<T>>,
    published_version: Ghost<usize>,
}

impl<T: 'static> SwmrCell<T> {
    /// The version of the current value: the number of stores so far.
    pub closed spec fn current_version(&self) -> usize {
        self.version
    }

    /// The shared state and the published value that readers of this cell read.
    pub closed spec fn source(&self) -> (Arc<SharedState>, Arc<Published<T>>) {
        (self.shared, self.ptr)
    }

    /// The current value.
    pub closed spec fn value(&self) -> T {
        *self.current
    }

    /// The retired values not yet reclaimed, each with the version it belonged to.
    pub closed spec fn retired(&self) -> Seq<(usize, Arc<T>)> {
        self.garbage@
    }

    /// The count of retired values above which a store collects.
    pub closed spec fn threshold(&self) -> Option<usize> {
        self.auto_reclaim_threshold
    }

    /// Every how many collections the dead reader slots are cleaned up.
    pub closed spec fn interval(&self) -> usize {
        self.cleanup_interval
    }

    /// The number of collections so far.
    pub closed spec fn collections(&self) -> usize {
        self.collection_counter
    }

    /// What the last collection read from the reader slots.
    pub closed spec fn last_readings(&self) -> Seq<SlotReading> {
        self.last_readings@
    }

    /// The value last written into the lock that readers read the value from.
    pub closed spec fn published_value(&self) -> T {
        *self.published@
    }

    /// The version last written into the global version that readers load.
    pub closed spec fn published_version(&self) -> usize {
        self.published_version@
    }

    /// The reader slots the last collection found in the list of readers.
    pub closed spec fn last_slots(&self) -> Seq<Arc<ReaderSlot>> {
        self.last_slots@
    }

    /// The count of holders of each of those slots, read when the last
    /// collection was one that cleans up; `None` when it was not.
    pub closed spec fn last_holders(&self) -> Option<Seq<usize>> {
        self.last_holders@
    }

    /// The list of readers that the last collection wrote back, if it
    /// replaced the list.
    pub closed spec fn last_replacement(&self) -> Option<Seq<Arc<ReaderSlot>>> {
        self.last_replacement@
    }

    /// The last collection read one reading per slot; when it was a clean-up
    /// collection (every `interval`-th, never with an interval of 0) it read
    /// every slot's count of holders and, if some slot was dead, replaced the
    /// list by the slots held elsewhere too, in order; otherwise it left the
    /// list as it was.
    pub open spec fn cleaned_up(&self) -> bool {
        let slots = self.last_slots();
        let readings = self.last_readings();
        &&& slots.len() == readings.len()
        &&& (self.last_holders() is Some) == cleanup_scheduled(self.collections(), self.interval())
        &&& match self.last_holders() {
            Some(h) => {
                &&& h.len() == slots.len()
                &&& self.last_replacement() == (if some_slot_dead(h, readings) {
                    Some(survivors(slots, h))
                } else {
                    None
                })
            },
            None => self.last_replacement() is None,
        }
    }

    /// The retired values are ordered by version, each older than the current
    /// one, and the newest of them is the one the latest store retired.
    pub closed spec fn wf(&self) -> bool {
        &&& versions_increasing(self.garbage@)
        &&& forall|i: int| 0 <= i < self.garbage@.len() ==> #[trigger] self.garbage@[i].0 < self.version
        &&& self.garbage@.len() > 0 ==> self.garbage@.last().0 == self.version - 1
        &&& *self.published@ == *self.current
        &&& self.published_version@ == self.version
    }

    /// The retired values of `self` are those of `before` less a front part
    /// reclaimed below the limit that the minimum active version of
    /// `readings` sets at the current version.
    pub open spec fn reclaimed_from(&self, before: Seq<(usize, Arc<T>)>, readings: Seq<SlotReading>) -> bool {
        exists|m: int|
            is_min_active(m, self.current_version(), readings) && reclaimed_below(
                before,
                self.retired(),
                reclaim_limit(m, self.current_version()),
            )
    }

    /// `self` is `old` after one collection.
    pub open spec fn collected_from(&self, old: Self) -> bool {
        &&& self.current_version() == old.current_version()
        &&& self.value() == old.value()
        &&& self.threshold() == old.threshold()
        &&& self.interval() == old.interval()
        &&& self.collections() == old.collections() + 1
        &&& self.reclaimed_from(old.retired(), self.last_readings())
        &&& self.cleaned_up()
    }

    /// `self` is `old` after a store of `data`: the version advances by one,
    /// `data` becomes current, the old value is retired with the old version,
    /// and a collection follows when the retired values exceed the threshold.
    pub open spec fn stored_from(&self, old: Self, data: T) -> bool {
        let pending = old.retired().push((old.current_version(), Arc::new(old.value())));
        &&& self.current_version() == old.current_version() + 1
        &&& self.value() == data
        &&& self.threshold() == old.threshold()
        &&& self.interval() == old.interval()
        &&& if old.threshold() matches Some(t) && pending.len() > t {
            &&& self.collections() == old.collections() + 1
            &&& self.reclaimed_from(pending, self.last_readings())
            &&& self.cleaned_up()
        } else {
            &&& self.collections() == old.collections()
            &&& self.retired() == pending
            &&& self.last_readings() == old.last_readings()
            &&& self.last_slots() == old.last_slots()
            &&& self.last_holders() == old.last_holders()
            &&& self.last_replacement() == old.last_replacement()
        }
    }

    /// `self` is a fresh cell holding `data`, configured with `threshold` and `interval`.
    pub open spec fn fresh(&self, data: T, threshold: Option<usize>, interval: usize) -> bool {
        &&& self.wf()
        &&& self.current_version() == 0
        &&& self.value() == data
        &&& self.retired() == Seq::<(usize, Arc<T>)>::empty()
        &&& self.threshold() == threshold
        &&& self.interval() == interval
        &&& self.collections() == 0
    }

    /// Create a new cell with default settings and the given initial value.
    pub fn new(data: T) -> (c: Self)
        where
            T: Send,
        ensures
            c.fresh(data, Some(AUTO_RECLAIM_THRESHOLD), DEFAULT_CLEANUP_INTERVAL),
    {
        Self::builder().build(data)
    }

    /// A builder with the default settings.
    pub fn builder() -> (b: SwmrCellBuilder<T>)
        ensures
            b.threshold() == Some(AUTO_RECLAIM_THRESHOLD),
            b.interval() == DEFAULT_CLEANUP_INTERVAL,
    {
        SwmrCellBuilder {
            auto_reclaim_threshold: Some(AUTO_RECLAIM_THRESHOLD),
            cleanup_interval: DEFAULT_CLEANUP_INTERVAL,
            marker: PhantomData,
        }
    }

    /// Create a new reader of this cell.
    pub fn local(&self) -> (r: LocalReader<T>)
        ensures
            r.source() == self.source(),
            r.generation() == 0,
            r.initial_versions() == (INACTIVE_VERSION, 0usize),
            r.registered_slot() == r.slot(),
    {
        LocalReader::new(self.shared.clone(), self.ptr.clone(), Ghost(0))
    }

    /// The current value, as the writer sees it.
    pub fn get(&self) -> (r: &T)
        ensures
            *r == self.value(),
    {
        &*self.current
    }

    /// The value retired by the latest store, while it is not reclaimed.
    pub fn previous(&self) -> (r: Option<&T>)
        ensures
            match r {
                Some(x) => self.retired().len() > 0 && *x == *self.retired().last().1,
                None => self.retired().len() == 0,
            },
    {
        match self.garbage.last() {
            Some(a) => Some(&**a),
            None => None,
        }
    }

    /// The current version: the number of stores so far.
    pub fn version(&self) -> (v: usize)
        ensures
            v == self.current_version(),
    {
        self.version
    }

    /// The number of retired values not yet reclaimed.
    pub fn garbage_count(&self) -> (n: usize)
        ensures
            n == self.retired().len(),
    {
        self.garbage.len()
    }

    /// Store a new value, making it visible to readers; the old value is
    /// retired with the old version, and the version advances by one.
    pub fn store(&mut self, data: T)
        requires
            old(self).wf(),
            old(self).current_version() < INACTIVE_VERSION - 1,
            old(self).collections() < usize::MAX,
        ensures
            final(self).wf(),
            final(self).stored_from(*old(self), data),
    {
        let new_value = Arc::new(data);
        let ghost seen: Arc<T>;
        {
            let mut published = write_lock(&self.ptr);
            let place = write_locked_mut(&mut published);
            *place = new_value.clone();
            proof {
                seen = *place;
            }
        }
        let old_version = self.version;
        let new_version = old_version + 1;
        self.version = new_version;
        atomic_store(&self.shared.global_version, new_version, Ordering::Release);
        self.published = Ghost(seen);
        self.published_version = Ghost(new_version);
        let mut old_value = new_value;
        std::mem::swap(&mut self.current, &mut old_value);
        self.garbage.add(old_value, old_version);
        if let Some(threshold) = self.auto_reclaim_threshold {
            if self.garbage.len() > threshold {
                self.collect();
            }
        }
    }

    /// Replace the value by `f` applied to it, as `store` does.
    pub fn update<F: FnOnce(&T) -> T>(&mut self, f: F)
        requires
            old(self).wf(),
            old(self).current_version() < INACTIVE_VERSION - 1,
            old(self).collections() < usize::MAX,
            f.requires((&old(self).value(),)),
        ensures
            final(self).wf(),
            exists|data: T| f.ensures((&old(self).value(),), data) && final(self).stored_from(*old(self), data),
    {
        let data = f(&*self.current);
        self.store(data);
    }

    /// Reclaim the retired values that no reader can still observe.
    ///
    /// Every reader slot is read: a pinned reader holds back its pinned
    /// version; an inactive reader that has not yet observed the current
    /// version holds back its quiescent version. The minimum is published to
    /// readers, and the retired values older than it are dropped, except the
    /// one retired by the latest store. Every `interval` collections the slots
    /// of dropped readers are removed.
    pub fn collect(&mut self)
        requires
            old(self).wf(),
            old(self).collections() < usize::MAX,
        ensures
            final(self).wf(),
            final(self).collected_from(*old(self)),
    {
        let current = self.version;
        self.collection_counter = self.collection_counter + 1;
        let should_cleanup = cleanup_due(self.collection_counter, self.cleanup_interval);
        let readings: Vec<SlotReading>;
        let ghost slots_seen: Seq<Arc<ReaderSlot>>;
        let ghost holders_seen: Seq<usize>;
        let ghost mut written: Option<Seq<Arc<ReaderSlot>>> = None;
        {
            let mut readers = lock(&self.shared.readers);
            let (scanned, kept, found_dead, holders) = {
                let slots = locked(&readers);
                proof {
                    slots_seen = slots@;
                }
                scan_slots(slots, should_cleanup)
            };
            readings = scanned;
            proof {
                holders_seen = holders@;
            }
            if should_cleanup && found_dead {
                let list = locked_mut(&mut readers);
                *list = kept;
                proof {
                    written = Some(list@);
                }
            }
        }
        let min_active = min_active_version(current, &readings);
        atomic_store(&self.shared.min_active_version, min_active, Ordering::Release);
        self.reclaim(min_active, Ghost(readings@));
        self.last_slots = Ghost(slots_seen);
        self.last_holders = Ghost(
            if should_cleanup {
                Some(holders_seen)
            } else {
                None
            },
        );
        self.last_replacement = Ghost(written);
    }

    /// Drop the retired values below the limit that `min_active`, the minimum
    /// active version of `readings`, sets at the current version.
    fn reclaim(&mut self, min_active: usize, readings: Ghost<Seq<SlotReading>>)
        requires
            old(self).wf(),
            is_min_active(min_active as int, old(self).current_version(), readings@),
        ensures
            final(self).wf(),
            final(self).current_version() == old(self).current_version(),
            final(self).value() == old(self).value(),
            final(self).threshold() == old(self).threshold(),
            final(self).interval() == old(self).interval(),
            final(self).collections() == old(self).collections(),
            final(self).last_readings() == readings@,
            final(self).reclaimed_from(old(self).retired(), readings@),
    {
        let current = self.version;
        let limit = limit_for(min_active, current);
        self.garbage.collect(limit, current);
        self.last_readings = readings;
        assert(is_min_active(min_active as int, self.current_version(), readings@) && reclaimed_below(
            old(self).retired(),
            self.retired(),
            reclaim_limit(min_active as int, self.current_version()),
        ));
    }
}

/// Read every slot of the list of readers: its pinned and quiescent versions
/// and, when `cleanup` is set, its count of holders. Returns the readings,
/// the slots held elsewhere too (in order), whether some slot is dead, and
/// the counts read.
fn scan_slots(slots: &Vec<Arc<ReaderSlot>>, cleanup: bool) -> (r: (
    Vec<SlotReading>,
    Vec<Arc<ReaderSlot>>,
    bool,
    Ghost<Seq<usize>>,
))
    ensures
        r.0@.len() == slots@.len(),
        cleanup ==> r.3@.len() == slots@.len(),
        cleanup ==> r.1@ == survivors(slots@, r.3@),
        cleanup ==> (r.2 <==> some_slot_dead(r.3@, r.0@)),
{
    let mut readings: Vec<SlotReading> = Vec::new();
    let mut kept: Vec<Arc<ReaderSlot>> = Vec::new();
    let mut found_dead = false;
    let ghost mut holders: Seq<usize> = Seq::empty();
    let mut i: usize = 0;
    while i < slots.len()
        invariant
            i <= slots.len(),
            readings@.len() == i,
            cleanup ==> holders.len() == i,
            cleanup ==> kept@ == survivors(slots@.take(i as int), holders),
            cleanup ==> (found_dead <==> exists|j: int|
                0 <= j < i && #[trigger] slot_is_dead(holders[j], readings@[j])),
        decreases slots.len() - i,
    {
        let slot = &slots[i];
        let active = load_acquire(&slot.active_version);
        let quiescent = load_acquire(&slot.quiescent_version);
        let reading = SlotReading { active, quiescent };
        let ghost old_readings = readings@;
        let ghost old_holders = holders;
        let ghost old_kept = kept@;
        readings.push(reading);
        if cleanup {
            let n = strong_count(slot);
            proof {
                holders = holders.push(n);
            }
            assert(slots@.take(i + 1).drop_last() =~= slots@.take(i as int));
            assert(holders.drop_last() =~= old_holders);
            if slot_kept(n) {
                kept.push(slot.clone());
            }
            if slot_dead(n, reading) {
                found_dead = true;
            }
            assert forall|j: int| 0 <= j < i implies readings@[j] == old_readings[j] && holders[j] == old_holders[j] by {}
            assert((exists|j: int| 0 <= j < i + 1 && #[trigger] slot_is_dead(holders[j], readings@[j])) <==> (
            (exists|j: int| 0 <= j < i && #[trigger] slot_is_dead(old_holders[j], old_readings[j]))
                || slot_is_dead(n, reading))) by {
                if slot_is_dead(n, reading) {
                    assert(slot_is_dead(holders[i as int], readings@[i as int]));
                }
                if exists|j: int| 0 <= j < i && #[trigger] slot_is_dead(old_holders[j], old_readings[j]) {
                    let j = choose|j: int| 0 <= j < i && #[trigger] slot_is_dead(old_holders[j], old_readings[j]);
                    assert(slot_is_dead(holders[j], readings@[j]));
                }
            }
        }
        i = i + 1;
    }
    assert(slots@.take(slots@.len() as int) =~= slots@);
    (readings, kept, found_dead, Ghost(holders))
}

impl<T: Default + Send + 'static> Default for SwmrCell<T> {
    /// A cell holding `T::default()`, with default settings.
    fn default() -> (c: Self)
        ensures
            exists|d: T|
                call_ensures(T::default, (), d) && c.fresh(
                    d,
                    Some(AUTO_RECLAIM_THRESHOLD),
                    DEFAULT_CLEANUP_INTERVAL,
                ),
    {
        Self::new(T::default())
    }
}

/// A builder for configuring and creating a cell.
pub struct SwmrCellBuilder<T> {
    auto_reclaim_threshold: Option<usize>,
    cleanup_interval: usize,
    marker: PhantomData<T>,
}

impl<T> SwmrCellBuilder<T> {
    /// The configured reclamation threshold.
    pub closed spec fn threshold(&self) -> Option<usize> {
        self.auto_reclaim_threshold
    }

    /// The configured clean-up interval.
    pub closed spec fn interval(&self) -> usize {
        self.cleanup_interval
    }
}

impl<T: Send + 'static> SwmrCellBuilder<T> {
    /// Set the count of retired values above which a store collects;
    /// `None` disables automatic reclamation.
    pub fn auto_reclaim_threshold(self, threshold: Option<usize>) -> (b: Self)
        ensures
            b.threshold() == threshold,
            b.interval() == self.interval(),
    {
        let mut b = self;
        b.auto_reclaim_threshold = threshold;
        b
    }

    /// Set every how many collections the slots of dropped readers are removed.
    pub fn cleanup_interval(self, interval: usize) -> (b: Self)
        ensures
            b.threshold() == self.threshold(),
            b.interval() == interval,
    {
        let mut b = self;
        b.cleanup_interval = interval;
        b
    }

    /// Create a cell with the configured settings and the initial value `data`.
    pub fn build(self, data: T) -> (c: SwmrCell<T>)
        ensures
            c.fresh(data, self.threshold(), self.interval()),
    {
        let initial_version: usize = 0;
        let shared = Arc::new(
            SharedState {
                global_version: AtomicUsize::new(initial_version),
                min_active_version: AtomicUsize::new(0),
                readers: Mutex::new(Vec::new()),
            },
        );
        let current = Arc::new(data);
        let offered = current.clone();
        let ghost first_published = offered;
        let ptr = Arc::new(RwLock::new(offered));
        SwmrCell {
            shared,
            ptr,
            current,
            version: 0,
            garbage: GarbageSet::new(),
            auto_reclaim_threshold: self.auto_reclaim_threshold,
            collection_counter: 0,
            cleanup_interval: self.cleanup_interval,
            last_readings: Ghost(Seq::empty()),
            last_slots: Ghost(Seq::empty()),
            last_holders: Ghost(None),
            last_replacement: Ghost(None),
            published: Ghost(first_published),
            published_version: Ghost(initial_version),
        }
    }
}


/// A reclamation (by `collect`, or by a `store` that exceeds the threshold)
/// never drops a retired value that a reader may still be looking at: every
/// value whose version is at or after the floor of some reader, as the
/// reclamation read that reader's slot, is still retired afterwards. The floor
/// is the reader's pinned version while it is pinned, and its quiescent
/// version while it is inactive but has not yet observed the current version.
pub proof fn lemma_reclaim_keeps_observable<T>(cell: SwmrCell<T>, before: Seq<(usize, Arc<T>)>, i: int)
    requires
        cell.reclaimed_from(before, cell.last_readings()),
        0 <= i < cell.last_readings().len(),
    ensures
        forall|j: int|
            0 <= j < before.len() && before[j].0 >= reader_floor(
                cell.last_readings()[i],
                cell.current_version(),
            ) ==> cell.retired().contains(#[trigger] before[j]),
{
    let current = cell.current_version();
    let readings = cell.last_readings();
    let m = choose|m: int|
        is_min_active(m, current, readings) && reclaimed_below(
            before,
            cell.retired(),
            reclaim_limit(m, current),
        );
    let k = choose|k: int|
        0 <= k <= before.len() && cell.retired() == before.subrange(k, before.len() as int) && (
        forall|x: int| 0 <= x < k ==> before[x].0 < reclaim_limit(m, current)) && (k < before.len()
            ==> before[k].0 >= reclaim_limit(m, current));
    assert(m <= reader_floor(readings[i], current));
    assert forall|j: int|
        0 <= j < before.len() && before[j].0 >= reader_floor(readings[i], current) implies cell.retired().contains(
        #[trigger] before[j]) by {
        assert(j >= k);
        assert(cell.retired()[j - k] == before[j]);
    }
}

/// A reclamation keeps the newest retired value when it belongs to the
/// version just before the current one.
pub proof fn lemma_reclaim_keeps_newest<T>(cell: SwmrCell<T>, before: Seq<(usize, Arc<T>)>)
    requires
        cell.reclaimed_from(before, cell.last_readings()),
        before.len() > 0,
        before.last().0 == cell.current_version() - 1,
    ensures
        cell.retired().len() > 0,
        cell.retired().last() == before.last(),
{
    let current = cell.current_version();
    let m = choose|m: int|
        is_min_active(m, current, cell.last_readings()) && reclaimed_below(
            before,
            cell.retired(),
            reclaim_limit(m, current),
        );
    let k = choose|k: int|
        0 <= k <= before.len() && cell.retired() == before.subrange(k, before.len() as int) && (
        forall|x: int| 0 <= x < k ==> before[x].0 < reclaim_limit(m, current)) && (k < before.len()
            ==> before[k].0 >= reclaim_limit(m, current));
    assert(k < before.len()) by {
        if k == before.len() {
            assert(before[before.len() - 1].0 < reclaim_limit(m, current));
        }
    }
}

/// A collection keeps the value retired by the latest store, so `previous`
/// returns the same value before and after it.
pub proof fn lemma_collect_keeps_previous<T>(old: SwmrCell<T>, new: SwmrCell<T>)
    requires
        old.wf(),
        new.collected_from(old),
    ensures
        new.retired().len() > 0 <==> old.retired().len() > 0,
        old.retired().len() > 0 ==> new.retired().last() == old.retired().last(),
{
    if old.retired().len() > 0 {
        lemma_reclaim_keeps_newest(new, old.retired());
    } else {
        assert(new.retired().len() == 0);
    }
}

/// After a store, `previous` is the value that the store replaced, retired
/// with the version it belonged to, whether or not the store collected.
pub proof fn lemma_store_retires_previous<T>(old: SwmrCell<T>, new: SwmrCell<T>, data: T)
    requires
        old.wf(),
        new.stored_from(old, data),
    ensures
        new.retired().len() > 0,
        new.retired().last() == (old.current_version(), Arc::new(old.value())),
        *new.retired().last().1 == old.value(),
{
    let pending = old.retired().push((old.current_version(), Arc::new(old.value())));
    if old.threshold() matches Some(t) && pending.len() > t {
        lemma_reclaim_keeps_newest(new, pending);
    }
}

/// A collection that finds no reader slot reclaims every retired value but
/// the one retired by the latest store.
pub proof fn lemma_collect_without_readers<T>(old: SwmrCell<T>, new: SwmrCell<T>)
    requires
        old.wf(),
        new.collected_from(old),
        new.last_readings().len() == 0,
    ensures
        old.retired().len() == 0 ==> new.retired().len() == 0,
        old.retired().len() > 0 ==> new.retired() == seq![old.retired().last()],
{
    let current = old.current_version();
    let m = choose|m: int|
        is_min_active(m, current, new.last_readings()) && reclaimed_below(
            old.retired(),
            new.retired(),
            reclaim_limit(m, current),
        );
    assert(m == current);
    let before = old.retired();
    if before.len() > 0 {
        lemma_collect_keeps_previous(old, new);
        let k = choose|k: int|
            0 <= k <= before.len() && new.retired() == before.subrange(k, before.len() as int) && (
            forall|x: int| 0 <= x < k ==> before[x].0 < reclaim_limit(m, current)) && (k
                < before.len() ==> before[k].0 >= reclaim_limit(m, current));
        assert(k == before.len() - 1) by {
            if k < before.len() - 1 {
                assert(before[k].0 < before[before.len() - 1].0);
            }
        }
        assert(new.retired() =~= seq![before.last()]);
    }
}

/// The invariant of a cell, as its callers see it: the retired values are
/// ordered by strictly increasing version, each older than the current
/// version, and the newest was retired by the latest store.
pub proof fn lemma_retired_ordered<T>(cell: SwmrCell<T>)
    requires
        cell.wf(),
    ensures
        versions_increasing(cell.retired()),
        forall|i: int| 0 <= i < cell.retired().len() ==> #[trigger] cell.retired()[i].0 < cell.current_version(),
        cell.retired().len() > 0 ==> cell.retired().last().0 == cell.current_version() - 1,
{
}

/// What readers are offered is the writer's current state: the value last
/// written into the readers' lock is the current value, and the global
/// version last written is the current version.
pub proof fn lemma_published_is_current<T>(cell: SwmrCell<T>)
    requires
        cell.wf(),
    ensures
        cell.published_value() == cell.value(),
        cell.published_version() == cell.current_version(),
{
}

/// A store makes its value visible to readers: once it returns, whether or
/// not it collected, the value written into the readers' lock is the stored
/// value and the global version written is one past the old version.
pub proof fn lemma_store_publishes<T>(old: SwmrCell<T>, new: SwmrCell<T>, data: T)
    requires
        new.wf(),
        new.stored_from(old, data),
    ensures
        new.published_value() == data,
        new.published_version() == old.current_version() + 1,
{
}

/// With a clean-up interval of 0 a collection never replaces the list of
/// readers, and with any interval it replaces it only on every
/// `interval`-th collection.
pub proof fn lemma_cleanup_schedule<T>(old: SwmrCell<T>, new: SwmrCell<T>)
    requires
        new.collected_from(old),
    ensures
        old.interval() == 0 ==> new.last_replacement() is None,
        new.last_replacement() is Some ==> new.interval() > 0 && new.collections() % new.interval() == 0,
{
}

/// A clean-up drops only the slots that nothing but the list of readers
/// holds: the list it writes back holds every slot of the old list held
/// elsewhere too, and only such slots.
pub proof fn lemma_cleanup_keeps_held_slots<T>(old: SwmrCell<T>, new: SwmrCell<T>)
    requires
        new.collected_from(old),
        new.last_replacement() is Some,
    ensures
        forall|i: int|
            0 <= i < new.last_slots().len() && new.last_holders()->0[i] > 1
                ==> new.last_replacement()->0.contains(#[trigger] new.last_slots()[i]),
        forall|x: Arc<ReaderSlot>| #[trigger]
            new.last_replacement()->0.contains(x) ==> exists|i: int|
                0 <= i < new.last_slots().len() && new.last_holders()->0[i] > 1 && new.last_slots()[i]
                    == x,
{
    lemma_survivors_are_held(new.last_slots(), new.last_holders()->0);
}

} // verus!
