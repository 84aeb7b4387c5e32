//! What an array needs of the buffer under it, whichever way the buffer is
//! shared.

use std::cell::{Ref, RefMut};
use vstd::prelude::*;
use crate::error::StorageError;
use crate::thread_safe_storage::{
    ThreadSafeStorage, ThreadSafeStorageGuard, ThreadSafeStorageGuardMut,
};
use crate::thread_unsafe_storage::{
    ref_elements, ref_mut_elements, ref_mut_elements_mut, ref_mut_shows, ref_shows,
    ThreadUnsafeStorage,
};

verus! {

/// Read access to the buffer of a storage, of either kind. The access
/// ends when the guard is dropped.
#[verifier::reject_recursive_types(T)]
pub enum StorageGuard<'a, T> {
    Exclusive(Ref<'a, Vec<T>>),
    Shared(ThreadSafeStorageGuard<'a, T>),
}

impl<'a, T> StorageGuard<'a, T> {
    /// Whether `elements` are what the guard inside shows, or may show, as
    /// the elements of the buffer.
    pub open spec fn shows(&self, elements: Seq<T>) -> bool {
        match *self {
            StorageGuard::Exclusive(guard) => ref_shows(guard, elements),
            StorageGuard::Shared(guard) => guard.shows(elements),
        }
    }

    /// The elements of the buffer.
    pub fn as_slice(&self) -> (s: &[T])
        ensures
            self.shows(s@),
    {
        match self {
            StorageGuard::Exclusive(guard) => ref_elements(guard),
            StorageGuard::Shared(guard) => guard.as_slice(),
        }
    }
}

impl<'a, T> std::ops::Deref for StorageGuard<'a, T> {
    type Target = [T];

    /// The elements of the buffer.
    fn deref(&self) -> (s: &[T])
        ensures
            self.shows(s@),
    {
        self.as_slice()
    }
}

/// Write access to the buffer of a storage, of either kind. The access
/// ends when the guard is dropped.
#[verifier::reject_recursive_types(T)]
pub enum StorageGuardMut<'a, T> {
    Exclusive(RefMut<'a, Vec<T>>),
    Shared(ThreadSafeStorageGuardMut<'a, T>),
}

impl<'a, T> StorageGuardMut<'a, T> {
    /// Whether `elements` are what the guard inside shows, or may show, as
    /// the elements of the buffer.
    pub open spec fn shows(&self, elements: Seq<T>) -> bool {
        match *self {
            StorageGuardMut::Exclusive(guard) => ref_mut_shows(guard, elements),
            StorageGuardMut::Shared(guard) => guard.shows(elements),
        }
    }

    /// The elements of the buffer.
    pub fn as_slice(&self) -> (s: &[T])
        ensures
            self.shows(s@),
    {
        match self {
            StorageGuardMut::Exclusive(guard) => ref_mut_elements(guard),
            StorageGuardMut::Shared(guard) => guard.as_slice(),
        }
    }

    /// The elements of the buffer, to be written: the slice starts as the
    /// elements that the guard shows, and what it holds when the writes
    /// are done is what the guard shows from then on.
    pub fn as_mut_slice(&mut self) -> (s: &mut [T])
        ensures
            old(self).shows(s@),
            final(self).shows(final(s)@),
    {
        match self {
            StorageGuardMut::Exclusive(guard) => ref_mut_elements_mut(guard),
            StorageGuardMut::Shared(guard) => guard.as_mut_slice(),
        }
    }
}

impl<'a, T> std::ops::Deref for StorageGuardMut<'a, T> {
    type Target = [T];

    /// The elements of the buffer.
    fn deref(&self) -> (s: &[T])
        ensures
            self.shows(s@),
    {
        self.as_slice()
    }
}

/// The owner of a flat buffer, which grants read and write access for the
/// time that a guard lives, and fails rather than let two holders clash.
///
/// A handle is cloned without copying the buffer: the clone is the same
/// storage.
pub trait Storage: Clone {
    type Stored;

    /// A clone of a handle is the handle itself, to every specification.
    proof fn lemma_clone_is_same(a: Self, b: Self)
        requires
            cloned(a, b),
        ensures
            a == b,
    ;

    /// Whether the buffer of this storage is the one that the backend
    /// made of the vector `v`.
    spec fn storage_made_of(&self, v: Vec<Self::Stored>) -> bool;

    /// Whether `r` is what `storage_get` makes of an outcome of asking the
    /// backend for read access.
    spec fn read_outcome(&self, r: Result<StorageGuard<'_, Self::Stored>, StorageError>) -> bool;

    /// Whether `r` is what `storage_get_mut` makes of an outcome of asking
    /// the backend for write access.
    spec fn write_outcome(
        &self,
        r: Result<StorageGuardMut<'_, Self::Stored>, StorageError>,
    ) -> bool;

    /// Whether `r` is what `storage_len` makes of an outcome of asking the
    /// backend for read access: the number of the elements that the guard
    /// shows, or the failure.
    spec fn len_outcome(&self, r: Result<usize, StorageError>) -> bool;

    /// A storage that owns `v`.
    fn storage_from(v: Vec<Self::Stored>) -> (storage: Self)
        ensures
            storage.storage_made_of(v),
    ;

    /// Read access to the buffer.
    fn storage_get(&self) -> (r: Result<StorageGuard<'_, Self::Stored>, StorageError>)
        ensures
            self.read_outcome(r),
            r matches Err(e) ==> e != StorageError::TooShort,
    ;

    /// Write access to the buffer.
    fn storage_get_mut(&mut self) -> (r: Result<StorageGuardMut<'_, Self::Stored>, StorageError>)
        ensures
            *final(self) == *old(self),
            old(self).write_outcome(r),
            r matches Err(e) ==> e != StorageError::TooShort,
    ;

    /// The number of elements of the buffer.
    fn storage_len(&self) -> (r: Result<usize, StorageError>)
        ensures
            self.len_outcome(r),
            r matches Err(e) ==> e != StorageError::TooShort,
    ;
}

/// Whether `elements` are what a read guard shows that `storage` granted:
/// what a reader of the buffer may find there.
pub open spec fn storage_reads<StorageType: Storage>(
    storage: &StorageType,
    elements: Seq<StorageType::Stored>,
) -> bool {
    exists|guard: StorageGuard<'_, StorageType::Stored>|
        storage.read_outcome(Ok(guard)) && #[trigger] guard.shows(elements)
}

/// Whether the storage refuses read access with the failure `e`.
pub open spec fn storage_refuses<StorageType: Storage>(
    storage: &StorageType,
    e: StorageError,
) -> bool {
    storage.read_outcome(Err::<StorageGuard<'_, StorageType::Stored>, StorageError>(e))
}

impl<T> Storage for ThreadSafeStorage<T> {
    type Stored = T;

    proof fn lemma_clone_is_same(a: Self, b: Self) {
    }

    open spec fn storage_made_of(&self, v: Vec<T>) -> bool {
        self.made_of(v)
    }

    fn storage_from(v: Vec<T>) -> (storage: Self) {
        ThreadSafeStorage::new(v)
    }

    open spec fn read_outcome(&self, r: Result<StorageGuard<'_, T>, StorageError>) -> bool {
        match r {
            Ok(StorageGuard::Shared(guard)) => self.read_result(Ok(guard)),
            Ok(StorageGuard::Exclusive(_)) => false,
            Err(e) => self.lock_result(Err(e)),
        }
    }

    open spec fn write_outcome(&self, r: Result<StorageGuardMut<'_, T>, StorageError>) -> bool {
        match r {
            Ok(StorageGuardMut::Shared(guard)) => self.write_result(Ok(guard)),
            Ok(StorageGuardMut::Exclusive(_)) => false,
            Err(e) => self.lock_result(Err(e)),
        }
    }

    open spec fn len_outcome(&self, r: Result<usize, StorageError>) -> bool {
        self.len_result(r)
    }

    fn storage_get(&self) -> (r: Result<StorageGuard<'_, T>, StorageError>) {
        match self.get() {
            Ok(guard) => Ok(StorageGuard::Shared(guard)),
            Err(e) => Err(e),
        }
    }

    fn storage_get_mut(&mut self) -> (r: Result<StorageGuardMut<'_, T>, StorageError>) {
        match self.get_mut() {
            Ok(guard) => Ok(StorageGuardMut::Shared(guard)),
            Err(e) => Err(e),
        }
    }

    fn storage_len(&self) -> (r: Result<usize, StorageError>) {
        self.len()
    }
}

impl<T> Storage for ThreadUnsafeStorage<T> {
    type Stored = T;

    proof fn lemma_clone_is_same(a: Self, b: Self) {
    }

    open spec fn storage_made_of(&self, v: Vec<T>) -> bool {
        self.made_of(v)
    }

    fn storage_from(v: Vec<T>) -> (storage: Self) {
        ThreadUnsafeStorage::new(v)
    }

    open spec fn read_outcome(&self, r: Result<StorageGuard<'_, T>, StorageError>) -> bool {
        match r {
            Ok(StorageGuard::Exclusive(guard)) => self.read_result(Ok(guard)),
            Ok(StorageGuard::Shared(_)) => false,
            Err(e) => self.read_result(Err(e)),
        }
    }

    open spec fn write_outcome(&self, r: Result<StorageGuardMut<'_, T>, StorageError>) -> bool {
        match r {
            Ok(StorageGuardMut::Exclusive(guard)) => self.write_result(Ok(guard)),
            Ok(StorageGuardMut::Shared(_)) => false,
            Err(e) => self.write_result(Err(e)),
        }
    }

    open spec fn len_outcome(&self, r: Result<usize, StorageError>) -> bool {
        self.len_result(r)
    }

    fn storage_get(&self) -> (r: Result<StorageGuard<'_, T>, StorageError>) {
        match self.get() {
            Ok(guard) => Ok(StorageGuard::Exclusive(guard)),
            Err(e) => Err(e),
        }
    }

    fn storage_get_mut(&mut self) -> (r: Result<StorageGuardMut<'_, T>, StorageError>) {
        match self.get_mut() {
            Ok(guard) => Ok(StorageGuardMut::Exclusive(guard)),
            Err(e) => Err(e),
        }
    }

    fn storage_len(&self) -> (r: Result<usize, StorageError>) {
        self.len()
    }
}

} // verus!
