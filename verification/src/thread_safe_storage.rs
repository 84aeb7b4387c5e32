//! A storage that may cross threads: a reference-counted buffer behind a
//! lock.

use std::sync::{Arc, Mutex, MutexGuard, PoisonError};
use vstd::prelude::*;
use crate::error::{access, granted, StorageError};

verus! {

/// `std::sync::Mutex`, a lock around a value. Nothing of its inside is
/// visible to specifications.
#[verifier::external_type_specification]
#[verifier::external_body]
#[verifier::reject_recursive_types(T)]
pub struct ExMutex<T: ?Sized>(Mutex<T>);

/// `std::sync::MutexGuard`, the guard of a held `Mutex`.
#[verifier::external_type_specification]
#[verifier::external_body]
#[verifier::reject_recursive_types(T)]
pub struct ExMutexGuard<'a, T: ?Sized + 'a>(MutexGuard<'a, T>);

/// `std::sync::PoisonError`, the failure of `Mutex::lock` after a holder
/// of the lock panicked.
#[verifier::external_type_specification]
#[verifier::external_body]
#[verifier::reject_recursive_types(T)]
pub struct ExPoisonError<T>(PoisonError<T>);

/// `Mutex::new` puts a value behind a new lock. Nothing is claimed of the
/// lock: what it guards later depends on who wrote to it in between.
pub assume_specification<T>[ Mutex::<T>::new ](value: T) -> (mutex: Mutex<T>)
;

/// `Mutex::lock` waits for the lock and then grants access, or reports that
/// a holder panicked while it held the lock. Nothing is claimed of the
/// outcome. The call does not return to a thread that holds the lock
/// already: the functions of this library never hold a guard when they
/// ask, so that can only meet a caller who keeps a guard and asks again.
pub assume_specification<'a, T: ?Sized>[ Mutex::<T>::lock ](mutex: &'a Mutex<T>) -> (r: Result<
    MutexGuard<'a, T>,
    PoisonError<MutexGuard<'a, T>>,
>)
;

/// `Arc::clone` makes another pointer to the same allocation: the new
/// handle is the old one, to every specification.
#[verifier::external_body]
fn arc_share<T>(arc: &Arc<T>) -> (r: Arc<T>)
    ensures
        r == *arc,
{
    Arc::clone(arc)
}

/// `Deref::deref` of a `MutexGuard`: the value behind the lock. Nothing
/// is claimed of it.
#[verifier::external_body]
fn guard_deref<'a, 'b, T>(guard: &'a MutexGuard<'b, T>) -> (value: &'a T) {
    std::ops::Deref::deref(guard)
}

/// `DerefMut::deref_mut` of a `MutexGuard`: the value behind the lock, to
/// be written. It is the value that `Deref::deref` gives for the guard,
/// when the call returns and again when the writes are done; nothing is
/// claimed of what the value holds.
#[verifier::external_body]
fn guard_deref_mut<'a, 'b, T>(guard: &'a mut MutexGuard<'b, T>) -> (value: &'a mut T)
    ensures
        call_ensures(guard_deref::<T>, (&*old(guard),), &*value),
        call_ensures(guard_deref::<T>, (&*final(guard),), &*final(value)),
{
    std::ops::DerefMut::deref_mut(guard)
}

/// Whether `elements` are what `Deref::deref` gives, or may give, as the
/// vector behind the lock guard `guard`.
pub closed spec fn guard_shows<T>(guard: MutexGuard<'_, Vec<T>>, elements: Seq<T>) -> bool {
    exists|vector: &Vec<T>| #[trigger]
        call_ensures(guard_deref::<Vec<T>>, (&guard,), vector) && vector@ == elements
}

/// The elements behind a lock guard.
fn guard_elements<'a, 'b, T>(guard: &'a MutexGuard<'b, Vec<T>>) -> (s: &'a [T])
    ensures
        guard_shows(*guard, s@),
{
    guard_deref(guard).as_slice()
}

/// Read access to the buffer of a `ThreadSafeStorage`. The lock is held
/// until the guard is dropped.
#[verifier::reject_recursive_types(T)]
pub struct ThreadSafeStorageGuard<'a, T> {
    guard: MutexGuard<'a, Vec<T>>,
}

impl<'a, T> ThreadSafeStorageGuard<'a, T> {
    /// The lock guard that is kept.
    pub closed spec fn inner(&self) -> MutexGuard<'a, Vec<T>> {
        self.guard
    }

    /// Whether `elements` are what the lock guard shows, or may show, as
    /// the elements of the buffer.
    pub open spec fn shows(&self, elements: Seq<T>) -> bool {
        guard_shows(self.inner(), elements)
    }

    /// A read guard that keeps the lock guard `guard`.
    pub fn new(guard: MutexGuard<'a, Vec<T>>) -> (r: Self)
        ensures
            r.inner() == guard,
    {
        Self { guard }
    }

    /// The elements of the buffer.
    pub fn as_slice(&self) -> (s: &[T])
        ensures
            self.shows(s@),
    {
        guard_elements(&self.guard)
    }
}

impl<'a, T> std::ops::Deref for ThreadSafeStorageGuard<'a, T> {
    type Target = [T];

    /// The elements of the buffer.
    fn deref(&self) -> (s: &[T])
        ensures
            self.shows(s@),
    {
        guard_elements(&self.guard)
    }
}

/// Write access to the buffer of a `ThreadSafeStorage`. The lock is held
/// until the guard is dropped.
#[verifier::reject_recursive_types(T)]
pub struct ThreadSafeStorageGuardMut<'a, T> {
    guard: MutexGuard<'a, Vec<T>>,
}

impl<'a, T> ThreadSafeStorageGuardMut<'a, T> {
    /// The lock guard that is kept.
    pub closed spec fn inner(&self) -> MutexGuard<'a, Vec<T>> {
        self.guard
    }

    /// Whether `elements` are what the lock guard shows, or may show, as
    /// the elements of the buffer.
    pub open spec fn shows(&self, elements: Seq<T>) -> bool {
        guard_shows(self.inner(), elements)
    }

    /// A write guard that keeps the lock guard `guard`.
    pub fn new(guard: MutexGuard<'a, Vec<T>>) -> (r: Self)
        ensures
            r.inner() == guard,
    {
        Self { guard }
    }

    /// The elements of the buffer.
    pub fn as_slice(&self) -> (s: &[T])
        ensures
            self.shows(s@),
    {
        guard_elements(&self.guard)
    }

    /// The elements of the buffer, to be written: the slice starts as the
    /// elements that the guard shows, and what it holds when the writes
    /// are done is what the guard shows from then on.
    pub fn as_mut_slice(&mut self) -> (s: &mut [T])
        ensures
            old(self).shows(s@),
            final(self).shows(final(s)@),
    {
        guard_deref_mut(&mut self.guard).as_mut_slice()
    }
}

impl<'a, T> std::ops::Deref for ThreadSafeStorageGuardMut<'a, T> {
    type Target = [T];

    /// The elements of the buffer.
    fn deref(&self) -> (s: &[T])
        ensures
            self.shows(s@),
    {
        guard_elements(&self.guard)
    }
}

/// A handle to a buffer that is shared, by reference counting, among the
/// handles cloned from it, on whatever thread they are. Every access takes
/// the lock that covers the whole buffer, and waits for it.
#[verifier::reject_recursive_types(T)]
pub struct ThreadSafeStorage<T> {
    data: Arc<Mutex<Vec<T>>>,
}

impl<T> ThreadSafeStorage<T> {
    /// Whether the lock of this storage is one that `Mutex::new` makes of
    /// the vector `v`.
    pub closed spec fn made_of(&self, v: Vec<T>) -> bool {
        call_ensures(Mutex::<Vec<T>>::new, (v,), *self.data)
    }

    /// Whether `outcome` is one that `Mutex::lock` gives, or may give, for
    /// the lock of this storage.
    pub closed spec fn locks(
        &self,
        outcome: Result<MutexGuard<'_, Vec<T>>, PoisonError<MutexGuard<'_, Vec<T>>>>,
    ) -> bool {
        call_ensures(Mutex::<Vec<T>>::lock, (&*self.data,), outcome)
    }

    /// Whether `r` is what this storage makes of an outcome of taking its
    /// lock: the lock guard that was granted, or `Poisoned` where the lock
    /// was found poisoned.
    pub open spec fn lock_result(&self, r: Result<MutexGuard<'_, Vec<T>>, StorageError>) -> bool {
        exists|outcome: Result<MutexGuard<'_, Vec<T>>, PoisonError<MutexGuard<'_, Vec<T>>>>|
            #[trigger] self.locks(outcome) && r == granted(outcome, StorageError::Poisoned)
    }

    /// Whether `r` is what `get` makes of an outcome of taking the lock: a
    /// read guard around the lock guard, or `Poisoned`.
    pub open spec fn read_result(
        &self,
        r: Result<ThreadSafeStorageGuard<'_, T>, StorageError>,
    ) -> bool {
        match r {
            Ok(guard) => self.lock_result(Ok(guard.inner())),
            Err(e) => self.lock_result(Err(e)),
        }
    }

    /// Whether `r` is what `get_mut` makes of an outcome of taking the
    /// lock: a write guard around the lock guard, or `Poisoned`.
    pub open spec fn write_result(
        &self,
        r: Result<ThreadSafeStorageGuardMut<'_, T>, StorageError>,
    ) -> bool {
        match r {
            Ok(guard) => self.lock_result(Ok(guard.inner())),
            Err(e) => self.lock_result(Err(e)),
        }
    }

    /// Whether `r` is what `len` makes of an outcome of taking the lock:
    /// the number of the elements that the lock guard shows, or `Poisoned`.
    pub open spec fn len_result(&self, r: Result<usize, StorageError>) -> bool {
        match r {
            Ok(n) => exists|guard: MutexGuard<'_, Vec<T>>, elements: Seq<T>|
                {
                    &&& self.lock_result(Ok(guard))
                    &&& #[trigger] guard_shows(guard, elements)
                    &&& n == elements.len()
                },
            Err(e) => self.lock_result(Err(e)),
        }
    }

    /// A storage that owns `v`.
    pub fn new(v: Vec<T>) -> (storage: Self)
        ensures
            storage.made_of(v),
    {
        Self { data: Arc::new(Mutex::new(v)) }
    }

    /// The lock of this storage, taken: the lock guard, or `Poisoned`.
    fn lock(&self) -> (r: Result<MutexGuard<'_, Vec<T>>, StorageError>)
        ensures
            self.lock_result(r),
            r matches Err(e) ==> e == StorageError::Poisoned,
    {
        let outcome = self.data.lock();
        assert(self.locks(outcome));
        access(outcome, StorageError::Poisoned)
    }

    /// Read access to the buffer. Fails where the lock is poisoned.
    ///
    /// The call waits until the lock is free. It must not be made on a
    /// thread that holds a guard of this storage, or of a clone of it:
    /// the lock would never come free for it.
    pub fn get(&self) -> (r: Result<ThreadSafeStorageGuard<'_, T>, StorageError>)
        ensures
            self.read_result(r),
            r matches Err(e) ==> e == StorageError::Poisoned,
    {
        match self.lock() {
            Ok(guard) => Ok(ThreadSafeStorageGuard::new(guard)),
            Err(e) => Err(e),
        }
    }

    /// Write access to the buffer. Fails where the lock is poisoned.
    ///
    /// The call waits until the lock is free. It must not be made on a
    /// thread that holds a guard of this storage, or of a clone of it:
    /// the lock would never come free for it.
    pub fn get_mut(&mut self) -> (r: Result<ThreadSafeStorageGuardMut<'_, T>, StorageError>)
        ensures
            *final(self) == *old(self),
            old(self).write_result(r),
            r matches Err(e) ==> e == StorageError::Poisoned,
    {
        match self.lock() {
            Ok(guard) => Ok(ThreadSafeStorageGuardMut::new(guard)),
            Err(e) => Err(e),
        }
    }

    /// The number of elements of the buffer. Fails where the lock is
    /// poisoned.
    ///
    /// The call waits until the lock is free. It must not be made on a
    /// thread that holds a guard of this storage, or of a clone of it:
    /// the lock would never come free for it.
    pub fn len(&self) -> (r: Result<usize, StorageError>)
        ensures
            self.len_result(r),
            r matches Err(e) ==> e == StorageError::Poisoned,
    {
        match self.lock() {
            Ok(guard) => Ok(guard_elements(&guard).len()),
            Err(e) => Err(e),
        }
    }
}

impl<T> Clone for ThreadSafeStorage<T> {
    /// Another handle to the same buffer; no element is copied.
    fn clone(&self) -> (r: Self)
        ensures
            r == *self,
    {
        Self { data: arc_share(&self.data) }
    }
}

impl<T> From<Vec<T>> for ThreadSafeStorage<T> {
    /// A storage that owns `val`.
    fn from(val: Vec<T>) -> (r: Self)
        ensures
            r.made_of(val),
    {
        ThreadSafeStorage::new(val)
    }
}

impl<T> vstd::std_specs::convert::FromSpecImpl<Vec<T>> for ThreadSafeStorage<T> {
    open spec fn obeys_from_spec() -> bool {
        false
    }

    open spec fn from_spec(val: Vec<T>) -> Self {
        arbitrary()
    }
}

} // verus!
