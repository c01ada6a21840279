//! parking_lot's locks, as the store and the staged values use them. The
//! guarded value is opaque: whoever holds the lock may have changed it, so a
//! caller learns only that its closure ran on some value.
use vstd::prelude::*;

verus! {

/// lock_api's `RwLock`, which parking_lot's `RwLock<T>` is with its own raw lock.
#[verifier::external_type_specification]
#[verifier::external_body]
#[verifier::reject_recursive_types(R)]
#[verifier::reject_recursive_types(T)]
pub struct ExRwLock<R, T: ?Sized>(lock_api::RwLock<R, T>);

/// parking_lot's raw readers-writer lock.
#[verifier::external_type_specification]
#[verifier::external_body]
pub struct ExRawRwLock(parking_lot::RawRwLock);

/// lock_api's `Mutex`, which parking_lot's `Mutex<T>` is with its own raw mutex.
#[verifier::external_type_specification]
#[verifier::external_body]
#[verifier::reject_recursive_types(R)]
#[verifier::reject_recursive_types(T)]
pub struct ExMutex<R, T: ?Sized>(lock_api::Mutex<R, T>);

/// parking_lot's raw mutex.
#[verifier::external_type_specification]
#[verifier::external_body]
pub struct ExRawMutex(parking_lot::RawMutex);

/// Relies on parking_lot's `RwLock::new`: an unlocked lock guarding `value`.
#[verifier::external_body]
pub(crate) fn new_rwlock<S>(value: S) -> parking_lot::RwLock<S> {
    parking_lot::RwLock::new(value)
}

/// Relies on parking_lot's `RwLock::read`: `f` reads the guarded value while
/// the shared lock is held.
#[verifier::external_body]
pub(crate) fn with_shared<S, T, F>(lock: &parking_lot::RwLock<S>, f: F) -> (r: T) where
    F: FnOnce(&S) -> T,

    requires
        forall|s: S| #[trigger] f.requires((&s,)),
    ensures
        exists|s: S| #[trigger] f.ensures((&s,), r),
{
    f(&*lock.read())
}

/// Relies on parking_lot's `RwLock::write`: `f` takes the guarded value while
/// the exclusive lock is held, and the value it hands back is stored in its place.
#[verifier::external_body]
pub(crate) fn with_exclusive<S: Default, T, F>(lock: &parking_lot::RwLock<S>, f: F) -> (r: T) where
    F: FnOnce(S) -> (S, T),

    requires
        forall|s: S| #[trigger] f.requires((s,)),
    ensures
        exists|s: S, next: S| #[trigger] f.ensures((s,), (next, r)),
{
    let mut guard = lock.write();
    let (next, r) = f(std::mem::take(&mut *guard));
    *guard = next;
    r
}

/// Relies on parking_lot's `Mutex::new`: an unlocked mutex guarding `value`.
#[verifier::external_body]
pub(crate) fn new_mutex<S>(value: S) -> parking_lot::Mutex<S> {
    parking_lot::Mutex::new(value)
}

/// Relies on parking_lot's `Mutex::lock`: `f` takes the guarded value while
/// the mutex is held, and the value it hands back is stored in its place.
#[verifier::external_body]
pub(crate) fn with_locked<S: Default, T, F>(lock: &parking_lot::Mutex<S>, f: F) -> (r: T) where
    F: FnOnce(S) -> (S, T),

    requires
        forall|s: S| #[trigger] f.requires((s,)),
    ensures
        exists|s: S, next: S| #[trigger] f.ensures((s,), (next, r)),
{
    let mut guard = lock.lock();
    let (next, r) = f(std::mem::take(&mut *guard));
    *guard = next;
    r
}

} // verus!
