//! The outside types this crate holds, and the trusted calls into them.
//!
//! Every value read here may be changed at any moment by another thread, so
//! none of these calls promises anything about what it returns; the logic
//! that uses the results is verified for every value they may have.
use antidote::{Mutex, MutexGuard, RwLock, RwLockReadGuard, RwLockWriteGuard};
use std::cell::Cell;
use std::sync::atomic::{AtomicUsize, Ordering};
use std::sync::Arc;
use vstd::prelude::*;

verus! {

/// `antidote::Mutex`, a mutex that does not poison itself.
#[verifier::external_type_specification]
#[verifier::external_body]
#[verifier::reject_recursive_types(T)]
pub struct ExMutex<T: ?Sized>(Mutex<T>);

/// The guard that `antidote::Mutex::lock` returns; the lock is held until it is dropped.
#[verifier::external_type_specification]
#[verifier::external_body]
#[verifier::reject_recursive_types(T)]
pub struct ExMutexGuard<'a, T: ?Sized + 'a>(MutexGuard<'a, T>);

/// `antidote::RwLock`, a reader-writer lock that does not poison itself.
#[verifier::external_type_specification]
#[verifier::external_body]
#[verifier::reject_recursive_types(T)]
pub struct ExRwLock<T: ?Sized>(RwLock<T>);

/// The shared guard that `antidote::RwLock::read` returns.
#[verifier::external_type_specification]
#[verifier::external_body]
#[verifier::reject_recursive_types(T)]
pub struct ExRwLockReadGuard<'a, T: ?Sized + 'a>(RwLockReadGuard<'a, T>);

/// The exclusive guard that `antidote::RwLock::write` returns.
#[verifier::external_type_specification]
#[verifier::external_body]
#[verifier::reject_recursive_types(T)]
pub struct ExRwLockWriteGuard<'a, T: ?Sized + 'a>(RwLockWriteGuard<'a, T>);

/// `std::cell::Cell`, a single-threaded mutable cell.
#[verifier::external_type_specification]
#[verifier::external_body]
#[verifier::reject_recursive_types(T)]
pub struct ExCell<T: ?Sized>(Cell<T>);

/// `antidote::Mutex::new` builds an unlocked mutex holding `t`; nothing is
/// stated of the contents.
pub assume_specification<T>[ Mutex::<T>::new ](t: T) -> Mutex<T>;

/// `antidote::RwLock::new` builds an unlocked lock holding `t`; nothing is
/// stated of the contents.
pub assume_specification<T>[ RwLock::<T>::new ](t: T) -> RwLock<T>;

/// `std::cell::Cell::new` builds a cell holding `value`; nothing is stated
/// of the contents.
pub assume_specification<T>[ Cell::<T>::new ](value: T) -> Cell<T>;

/// Calls `antidote::Mutex::lock`, which blocks until the mutex is free and
/// returns its guard; a poisoned mutex is taken over rather than reported.
/// Nothing is stated of the contents. No caller in this crate locks a mutex
/// that the same thread already holds.
#[verifier::external_body]
pub(crate) fn lock<'a, T>(m: &'a Mutex<T>) -> MutexGuard<'a, T> {
    m.lock()
}

/// Dereferences an `antidote::MutexGuard` (its `Deref` impl) to the locked value.
#[verifier::external_body]
pub(crate) fn locked<'a, 'b, T>(g: &'b MutexGuard<'a, T>) -> &'b T {
    &**g
}

/// Dereferences an `antidote::MutexGuard` mutably (its `DerefMut` impl) to the
/// locked value. Nothing is stated of the value before or after.
#[verifier::external_body]
pub(crate) fn locked_mut<'a, 'b, T>(g: &'b mut MutexGuard<'a, T>) -> &'b mut T {
    &mut **g
}

/// Calls `antidote::RwLock::read`, which blocks while a writer holds the
/// lock and returns a shared guard. Nothing is stated of the contents, which
/// the writer may replace between any two reads.
#[verifier::external_body]
pub(crate) fn read_lock<'a, T>(l: &'a RwLock<T>) -> RwLockReadGuard<'a, T> {
    l.read()
}

/// Dereferences an `antidote::RwLockReadGuard` (its `Deref` impl).
#[verifier::external_body]
pub(crate) fn read_locked<'a, 'b, T>(g: &'b RwLockReadGuard<'a, T>) -> &'b T {
    &**g
}

/// Calls `antidote::RwLock::write`, which blocks until no other guard is held
/// and returns an exclusive guard. Nothing is stated of the contents. No
/// caller in this crate holds another guard of the same lock meanwhile.
#[verifier::external_body]
pub(crate) fn write_lock<'a, T>(l: &'a RwLock<T>) -> RwLockWriteGuard<'a, T> {
    l.write()
}

/// Dereferences an `antidote::RwLockWriteGuard` mutably (its `DerefMut` impl).
/// Nothing is stated of the value before or after.
#[verifier::external_body]
pub(crate) fn write_locked_mut<'a, 'b, T>(g: &'b mut RwLockWriteGuard<'a, T>) -> &'b mut T {
    &mut **g
}

/// Calls `std::cell::Cell::get`. The cell is shared by a reader and its
/// guards, so nothing is stated of the value returned.
#[verifier::external_body]
pub(crate) fn cell_get(c: &Cell<usize>) -> usize
    opens_invariants none
    no_unwind
{
    c.get()
}

/// Calls `std::cell::Cell::set`, which does not unwind.
#[verifier::external_body]
pub(crate) fn cell_set(c: &Cell<usize>, v: usize)
    opens_invariants none
    no_unwind
{
    c.set(v)
}

/// Calls `std::sync::atomic::AtomicUsize::load`, which panics for a `Release`
/// or `AcqRel` ordering and otherwise does not unwind. Another thread may
/// write the atomic at any time, so nothing is stated of the value.
#[verifier::external_body]
pub(crate) fn atomic_load(a: &AtomicUsize, order: Ordering) -> usize
    requires
        !(order is Release),
        !(order is AcqRel),
    opens_invariants none
    no_unwind
{
    a.load(order)
}

/// Calls `std::sync::atomic::AtomicUsize::store`, which panics for an
/// `Acquire` or `AcqRel` ordering and otherwise does not unwind.
#[verifier::external_body]
pub(crate) fn atomic_store(a: &AtomicUsize, v: usize, order: Ordering)
    requires
        !(order is Acquire),
        !(order is AcqRel),
    opens_invariants none
    no_unwind
{
    a.store(v, order)
}

/// Calls `std::sync::Arc::strong_count`. Other threads may clone or drop
/// their handles at any time, so nothing is stated of the count.
#[verifier::external_body]
pub(crate) fn strong_count<T>(a: &Arc<T>) -> usize {
    Arc::strong_count(a)
}

/// Calls `std::hint::spin_loop`, a hint to the processor while waiting.
#[verifier::external_body]
pub(crate) fn spin_hint() {
    std::hint::spin_loop()
}

} // verus!
