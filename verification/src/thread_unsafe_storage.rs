//! A storage for one thread of control: a reference-counted buffer whose
//! borrows are checked when they are taken.

use std::cell::{BorrowError, BorrowMutError, Ref, RefCell, RefMut};
use std::rc::Rc;
use vstd::prelude::*;
use crate::error::{access, granted, StorageError};

verus! {

/// `std::cell::RefCell`, a cell whose borrows are counted while the
/// program runs. Nothing of its inside is visible to specifications.
#[verifier::external_type_specification]
#[verifier::external_body]
#[verifier::reject_recursive_types(T)]
pub struct ExRefCell<T: ?Sized>(RefCell<T>);

/// `std::cell::Ref`, the guard of a shared borrow of a `RefCell`.
#[verifier::external_type_specification]
#[verifier::external_body]
#[verifier::reject_recursive_types(T)]
pub struct ExRef<'b, T: ?Sized>(Ref<'b, T>);

/// `std::cell::RefMut`, the guard of an exclusive borrow of a `RefCell`.
#[verifier::external_type_specification]
#[verifier::external_body]
#[verifier::reject_recursive_types(T)]
pub struct ExRefMut<'b, T: ?Sized + 'b>(RefMut<'b, T>);

/// `std::cell::BorrowError`, the failure of `RefCell::try_borrow`.
#[verifier::external_type_specification]
#[verifier::external_body]
pub struct ExBorrowError(BorrowError);

/// `std::cell::BorrowMutError`, the failure of `RefCell::try_borrow_mut`.
#[verifier::external_type_specification]
#[verifier::external_body]
pub struct ExBorrowMutError(BorrowMutError);

/// `RefCell::new` puts a value into a new cell. Nothing is claimed of the
/// cell: what it holds later depends on who wrote to it in between.
pub assume_specification<T>[ RefCell::<T>::new ](value: T) -> (cell: RefCell<T>)
;

/// `RefCell::try_borrow` grants shared access unless the cell is borrowed
/// mutably. Whether it does depends on the borrows that are live, so
/// nothing is claimed of the outcome.
pub assume_specification<'a, T: ?Sized>[ RefCell::<T>::try_borrow ](cell: &'a RefCell<T>) -> (r:
    Result<Ref<'a, T>, BorrowError>)
;

/// `RefCell::try_borrow_mut` grants exclusive access unless the cell is
/// borrowed already. Nothing is claimed of the outcome.
pub assume_specification<'a, T: ?Sized>[ RefCell::<T>::try_borrow_mut ](
    cell: &'a RefCell<T>,
) -> (r: Result<RefMut<'a, T>, BorrowMutError>)
;

/// `Rc::clone` makes another pointer to the same allocation: the new
/// handle is the old one, to every specification.
#[verifier::external_body]
fn rc_share<T>(rc: &Rc<T>) -> (r: Rc<T>)
    ensures
        r == *rc,
{
    Rc::clone(rc)
}

/// `Deref::deref` of a `Ref`: the value behind a read guard. Nothing is
/// claimed of it.
#[verifier::external_body]
fn ref_deref<'a, 'b, T>(guard: &'a Ref<'b, T>) -> (value: &'a T) {
    std::ops::Deref::deref(guard)
}

/// `Deref::deref` of a `RefMut`: the value behind a write guard. Nothing
/// is claimed of it.
#[verifier::external_body]
fn ref_mut_deref<'a, 'b, T>(guard: &'a RefMut<'b, T>) -> (value: &'a T) {
    std::ops::Deref::deref(guard)
}

/// `DerefMut::deref_mut` of a `RefMut`: the value behind a write guard, to
/// be written. It is the value that `Deref::deref` gives for the guard,
/// when the call returns and again when the writes are done; nothing is
/// claimed of what the value holds.
#[verifier::external_body]
fn ref_mut_deref_mut<'a, 'b, T>(guard: &'a mut RefMut<'b, T>) -> (value: &'a mut T)
    ensures
        call_ensures(ref_mut_deref::<T>, (&*old(guard),), &*value),
        call_ensures(ref_mut_deref::<T>, (&*final(guard),), &*final(value)),
{
    std::ops::DerefMut::deref_mut(guard)
}

/// A handle to a buffer that is shared, by reference counting, among the
/// handles cloned from it. Access is checked when it is asked for: a
/// conflicting borrow makes it fail.
#[verifier::reject_recursive_types(T)]
pub struct ThreadUnsafeStorage<T> {
    data: Rc<RefCell<Vec<T>>>,
}

/// Whether `elements` are what `Deref::deref` gives, or may give, as the
/// vector behind the read guard `guard`.
pub closed spec fn ref_shows<T>(guard: Ref<'_, Vec<T>>, elements: Seq<T>) -> bool {
    exists|vector: &Vec<T>| #[trigger]
        call_ensures(ref_deref::<Vec<T>>, (&guard,), vector) && vector@ == elements
}

/// Whether `elements` are what `Deref::deref` gives, or may give, as the
/// vector behind the write guard `guard`.
pub closed spec fn ref_mut_shows<T>(guard: RefMut<'_, Vec<T>>, elements: Seq<T>) -> bool {
    exists|vector: &Vec<T>| #[trigger]
        call_ensures(ref_mut_deref::<Vec<T>>, (&guard,), vector) && vector@ == elements
}

/// The elements behind a read guard.
pub(crate) fn ref_elements<'a, 'b, T>(guard: &'a Ref<'b, Vec<T>>) -> (s: &'a [T])
    ensures
        ref_shows(*guard, s@),
{
    ref_deref(guard).as_slice()
}

/// The elements behind a write guard.
pub(crate) fn ref_mut_elements<'a, 'b, T>(guard: &'a RefMut<'b, Vec<T>>) -> (s: &'a [T])
    ensures
        ref_mut_shows(*guard, s@),
{
    ref_mut_deref(guard).as_slice()
}

/// The elements behind a write guard, to be written: the slice starts as
/// the elements that the guard shows, and what it holds when the writes
/// are done is what the guard shows from then on.
pub(crate) fn ref_mut_elements_mut<'a, 'b, T>(guard: &'a mut RefMut<'b, Vec<T>>) -> (s: &'a mut [T])
    ensures
        ref_mut_shows(*old(guard), s@),
        ref_mut_shows(*final(guard), final(s)@),
{
    ref_mut_deref_mut(guard).as_mut_slice()
}

impl<T> ThreadUnsafeStorage<T> {
    /// Whether the cell of this storage is one that `RefCell::new` makes
    /// of the vector `v`.
    pub closed spec fn made_of(&self, v: Vec<T>) -> bool {
        call_ensures(RefCell::<Vec<T>>::new, (v,), *self.data)
    }

    /// Whether `outcome` is one that `RefCell::try_borrow` gives, or may
    /// give, for the cell of this storage.
    pub closed spec fn lends(&self, outcome: Result<Ref<'_, Vec<T>>, BorrowError>) -> bool {
        call_ensures(RefCell::<Vec<T>>::try_borrow, (&*self.data,), outcome)
    }

    /// Whether `outcome` is one that `RefCell::try_borrow_mut` gives, or
    /// may give, for the cell of this storage.
    pub closed spec fn lends_mut(
        &self,
        outcome: Result<RefMut<'_, Vec<T>>, BorrowMutError>,
    ) -> bool {
        call_ensures(RefCell::<Vec<T>>::try_borrow_mut, (&*self.data,), outcome)
    }

    /// Whether `r` is what `get` makes of an outcome of a shared borrow of
    /// the cell of this storage: the guard that was granted, or
    /// `BorrowedMutably` for a borrow that was refused.
    pub open spec fn read_result(&self, r: Result<Ref<'_, Vec<T>>, StorageError>) -> bool {
        exists|outcome: Result<Ref<'_, Vec<T>>, BorrowError>| #[trigger]
            self.lends(outcome) && r == granted(outcome, StorageError::BorrowedMutably)
    }

    /// Whether `r` is what `get_mut` makes of an outcome of an exclusive
    /// borrow of the cell of this storage: the guard that was granted, or
    /// `AlreadyBorrowed` for a borrow that was refused.
    pub open spec fn write_result(&self, r: Result<RefMut<'_, Vec<T>>, StorageError>) -> bool {
        exists|outcome: Result<RefMut<'_, Vec<T>>, BorrowMutError>| #[trigger]
            self.lends_mut(outcome) && r == granted(outcome, StorageError::AlreadyBorrowed)
    }

    /// Whether `r` is what `len` makes of an outcome of a shared borrow of
    /// the cell of this storage: the number of the elements that the guard
    /// shows, or `BorrowedMutably` for a borrow that was refused.
    pub open spec fn len_result(&self, r: Result<usize, StorageError>) -> bool {
        match r {
            Ok(n) => exists|guard: Ref<'_, Vec<T>>, elements: Seq<T>|
                {
                    &&& self.read_result(Ok(guard))
                    &&& #[trigger] ref_shows(guard, elements)
                    &&& n == elements.len()
                },
            Err(e) => self.read_result(Err(e)),
        }
    }

    /// A storage that owns `v`.
    pub fn new(v: Vec<T>) -> (storage: Self)
        ensures
            storage.made_of(v),
    {
        Self { data: Rc::new(RefCell::new(v)) }
    }

    /// Shared access to the buffer. Fails while a write guard is live.
    pub fn get(&self) -> (r: Result<Ref<'_, Vec<T>>, StorageError>)
        ensures
            self.read_result(r),
            r matches Err(e) ==> e == StorageError::BorrowedMutably,
    {
        let outcome = self.data.try_borrow();
        assert(self.lends(outcome));
        access(outcome, StorageError::BorrowedMutably)
    }

    /// Exclusive access to the buffer. Fails while any other guard is live.
    pub fn get_mut(&mut self) -> (r: Result<RefMut<'_, Vec<T>>, StorageError>)
        ensures
            *final(self) == *old(self),
            old(self).write_result(r),
            r matches Err(e) ==> e == StorageError::AlreadyBorrowed,
    {
        let outcome = self.data.try_borrow_mut();
        assert(self.lends_mut(outcome));
        access(outcome, StorageError::AlreadyBorrowed)
    }

    /// The number of elements of the buffer. Fails while a write guard is
    /// live.
    pub fn len(&self) -> (r: Result<usize, StorageError>)
        ensures
            self.len_result(r),
            r matches Err(e) ==> e == StorageError::BorrowedMutably,
    {
        match self.get() {
            Ok(guard) => Ok(ref_elements(&guard).len()),
            Err(e) => Err(e),
        }
    }
}

impl<T> Clone for ThreadUnsafeStorage<T> {
    /// Another handle to the same buffer; no element is copied.
    fn clone(&self) -> (r: Self)
        ensures
            r == *self,
    {
        Self { data: rc_share(&self.data) }
    }
}

impl<T> From<Vec<T>> for ThreadUnsafeStorage<T> {
    /// A storage that owns `val`.
    fn from(val: Vec<T>) -> (r: Self)
        ensures
            r.made_of(val),
    {
        ThreadUnsafeStorage::new(val)
    }
}

impl<T> vstd::std_specs::convert::FromSpecImpl<Vec<T>> for ThreadUnsafeStorage<T> {
    open spec fn obeys_from_spec() -> bool {
        false
    }

    open spec fn from_spec(val: Vec<T>) -> Self {
        arbitrary()
    }
}

} // verus!
