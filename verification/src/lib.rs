//! A single-writer, multi-reader cell with version-based reclamation of
//! retired values.
//!
//! The writer stores values into a `SwmrCell`; each store advances a version
//! counter and retires the value it replaces. Readers pin the current version
//! through a `LocalReader` and read the value captured at that moment through
//! the `PinGuard` they get back. A collection reads the versions the readers
//! are pinned at and drops the retired values that no reader can observe.
mod cell;
mod garbage;
mod reader;
mod sync;
mod version;

pub use cell::{
    lemma_cleanup_keeps_held_slots, lemma_cleanup_schedule, lemma_published_is_current,
    lemma_retired_ordered, lemma_store_publishes,
    lemma_collect_keeps_previous, lemma_collect_without_readers, lemma_reclaim_keeps_newest,
    lemma_reclaim_keeps_observable, lemma_store_retires_previous, SwmrCell, SwmrCellBuilder,
};
pub use garbage::{lemma_reclaim_monotone, reclaimed_below, versions_increasing, GarbageSet};
pub use reader::{
    after_releases, lemma_generations_separate_slots, lemma_pinned_until_last_release,
    pin_confirmed, pin_held, pin_step, release_pin, unpin_effect, unpin_step,
    LocalReader, PinGuard,
};
pub use version::{
    floor_of, is_min_active, keep_previous_bound, limit_for, min_active_version, reader_floor,
    reclaim_limit, cleanup_due, cleanup_scheduled, lemma_survivors_are_held, slot_dead,
    slot_is_dead, slot_kept, some_slot_dead, survivors, SlotReading, INACTIVE_VERSION,
};
