//! Elementwise addition of two arrays of one shape.

use vstd::prelude::*;
use crate::arith::{has_zero, in_bounds, lemma_product_zero, lemma_unravel, product};
use crate::array::{zero_buffer, Array};
use crate::element::Element;
use crate::error::{ArrayError, ShapeDifference, ShapeError, StorageError};
use crate::storage::{storage_reads, storage_refuses, Storage};
use crate::thread_unsafe_storage::ThreadUnsafeStorage;
use crate::utils::IndexIteration;
use crate::views::{
    element_at, fits_buffer, representable, view_fits, ArrayView, ContiguousView,
};

verus! {

/// Whether `sums` holds, at every position, the sum of the element of
/// `acc` and the element that `view` shows over `buffer` at that position
/// of its row-major traversal.
pub open spec fn accumulated<T: Element, ViewType: ArrayView>(
    acc: Seq<T>,
    buffer: Seq<T>,
    view: &ViewType,
    sums: Seq<T>,
) -> bool {
    &&& sums.len() == acc.len()
    &&& forall|k: int|
        0 <= k < sums.len() ==> {
            &&& T::representable(acc[k].value() + element_at(buffer, view, k).value())
            &&& (#[trigger] sums[k]).value() == acc[k].value() + element_at(
                buffer,
                view,
                k,
            ).value()
        }
}

/// Accumulating two operands onto zeros, one after the other, leaves at
/// every position the sum of the elements that the two show there.
pub proof fn lemma_accumulated_twice<T: Element, Lhs: ArrayView, Rhs: ArrayView>(
    zeros: Seq<T>,
    lhs_buffer: Seq<T>,
    lhs_view: &Lhs,
    left: Seq<T>,
    rhs_buffer: Seq<T>,
    rhs_view: &Rhs,
    sums: Seq<T>,
)
    requires
        forall|k: int| 0 <= k < zeros.len() ==> (#[trigger] zeros[k]).value() == 0,
        accumulated(zeros, lhs_buffer, lhs_view, left),
        accumulated(left, rhs_buffer, rhs_view, sums),
    ensures
        sums.len() == zeros.len(),
        forall|k: int|
            0 <= k < sums.len() ==> (#[trigger] sums[k]).value() == element_at(
                lhs_buffer,
                lhs_view,
                k,
            ).value() + element_at(rhs_buffer, rhs_view, k).value(),
        forall|k: int| 0 <= k < left.len() ==> #[trigger] left[k] == element_at(
            lhs_buffer,
            lhs_view,
            k,
        ),
{
    assert forall|k: int| 0 <= k < sums.len() implies (#[trigger] sums[k]).value() == element_at(
        lhs_buffer,
        lhs_view,
        k,
    ).value() + element_at(rhs_buffer, rhs_view, k).value() by {
        assert(left[k].value() == zeros[k].value() + element_at(lhs_buffer, lhs_view, k).value());
    }
    assert forall|k: int| 0 <= k < left.len() implies #[trigger] left[k] == element_at(
        lhs_buffer,
        lhs_view,
        k,
    ) by {
        assert(left[k].value() == zeros[k].value() + element_at(lhs_buffer, lhs_view, k).value());
        T::lemma_value_determines(left[k], element_at(lhs_buffer, lhs_view, k));
    }
}

/// Adds to each element of `acc` the element that `view` shows over
/// `buffer` at the same position of its row-major traversal.
///
/// Fails with `StorageError` where the buffer ends before an element of
/// the view, and with `Overflow` where a sum does not fit in the element
/// type.
pub fn accumulate<T: Element, ViewType: ArrayView>(
    acc: Vec<T>,
    buffer: &[T],
    view: &ViewType,
) -> (r: Result<Vec<T>, ArrayError>)
    requires
        view.wf(),
        acc@.len() == product(view.spec_shape()),
    ensures
        match r {
            Ok(sums) => view_fits(view, buffer@.len()) && accumulated(acc@, buffer@, view, sums@),
            Err(e) => {
                ||| e == ArrayError::StorageError(StorageError::TooShort) && !view_fits(
                    view,
                    buffer@.len(),
                )
                ||| {
                    &&& e == ArrayError::Overflow
                    &&& view_fits(view, buffer@.len())
                    &&& exists|k: int|
                        0 <= k < acc@.len() && !T::representable(
                            #[trigger] acc@[k].value() + element_at(buffer@, view, k).value(),
                        )
                }
            },
        },
{
    if !fits_buffer(view, buffer.len()) {
        return Err(ArrayError::StorageError(StorageError::TooShort));
    }
    let n = acc.len();
    if n == 0 {
        return Ok(acc);
    }
    let shape = view.shape();
    proof {
        if has_zero(shape@) {
            lemma_product_zero(shape@);
        }
    }
    let mut sums = acc;
    let mut walk = IndexIteration::row_major(shape);
    let mut k: usize = 0;
    loop
        invariant
            view.wf(),
            shape@ == view.spec_shape(),
            !has_zero(shape@),
            n == product(shape@),
            view_fits(view, buffer@.len()),
            walk.wf(),
            walk.shape() == shape@,
            0 <= k <= n,
            walk.upcoming() == if k < n {
                Some(k as nat)
            } else {
                None
            },
            sums@.len() == n,
            acc@.len() == n,
            forall|j: int|
                0 <= j < k ==> T::representable(
                    (#[trigger] acc@[j]).value() + element_at(buffer@, view, j).value(),
                ),
            forall|j: int|
                0 <= j < k ==> (#[trigger] sums@[j]).value() == acc@[j].value() + element_at(
                    buffer@,
                    view,
                    j,
                ).value(),
            forall|j: int| k <= j < n ==> sums@[j] == acc@[j],
        ensures
            k == n,
        decreases n - k,
    {
        match walk.next() {
            None => {
                break ;
            },
            Some(idx) => {
                proof {
                    lemma_unravel(k as nat, shape@);
                    view.lemma_wf();
                    assert(in_bounds(idx@, view.spec_shape()));
                }
                let offset = view.translate(idx);
                match sums[k].checked_sum(buffer[offset]) {
                    Some(sum) => {
                        sums[k] = sum;
                    },
                    None => {
                        assert(!T::representable(
                            acc@[k as int].value() + element_at(buffer@, view, k as int).value(),
                        ));
                        return Err(ArrayError::Overflow);
                    },
                }
                k += 1;
            },
        }
    }
    Ok(sums)
}

/// Whether `sums` holds, for every position of the row-major traversal,
/// the sum of the elements that the two views show there, over buffers
/// that hold every element of their views.
pub open spec fn summed<T: Element, Lhs: ArrayView, Rhs: ArrayView>(
    lhs_elements: Seq<T>,
    lhs_view: &Lhs,
    rhs_elements: Seq<T>,
    rhs_view: &Rhs,
    sums: Seq<T>,
) -> bool {
    &&& view_fits(lhs_view, lhs_elements.len())
    &&& view_fits(rhs_view, rhs_elements.len())
    &&& sums.len() == product(lhs_view.spec_shape())
    &&& forall|k: int|
        0 <= k < sums.len() ==> (#[trigger] sums[k]).value() == element_at(
            lhs_elements,
            lhs_view,
            k,
        ).value() + element_at(rhs_elements, rhs_view, k).value()
}

/// Whether some position of the row-major traversal has a sum of the two
/// elements shown there that the element type cannot hold.
pub open spec fn overflows<T: Element, Lhs: ArrayView, Rhs: ArrayView>(
    lhs_elements: Seq<T>,
    lhs_view: &Lhs,
    rhs_elements: Seq<T>,
    rhs_view: &Rhs,
) -> bool {
    exists|k: int|
        0 <= k < product(lhs_view.spec_shape()) && !T::representable(
            (#[trigger] element_at(lhs_elements, lhs_view, k)).value() + element_at(
                rhs_elements,
                rhs_view,
                k,
            ).value(),
        )
}

impl<StorageType: Storage, ViewType: ArrayView> Array<StorageType, ViewType> where
    StorageType::Stored: Element,
 {
    /// Whether `r` is an outcome of adding `rhs` to this array.
    ///
    /// A sum comes only of operands of one shape, over what read guards of
    /// the two storages show: a contiguous array at offset zero whose
    /// storage is made of the elementwise sums. `ShapeMismatch` comes
    /// exactly where the shapes differ, and names the first difference;
    /// `InvalidShape` comes exactly where the shapes agree but cannot be
    /// laid out contiguously. A `StorageError` is
    /// the refusal of one of the two storages, or `TooShort` for elements
    /// that end before an element of their view. `Overflow` comes only
    /// where a sum does not fit in the element type.
    pub open spec fn sum_result<RhsStorage, RhsView>(
        &self,
        rhs: &Array<RhsStorage, RhsView>,
        r: Result<Array<ThreadUnsafeStorage<StorageType::Stored>, ContiguousView>, ArrayError>,
    ) -> bool where RhsStorage: Storage<Stored = StorageType::Stored>, RhsView: ArrayView {
        let shape = self.spec_view().spec_shape();
        let same = shape == rhs.spec_view().spec_shape();
        match r {
            Ok(sum) => {
                &&& same
                &&& representable(shape, 0)
                &&& sum.wf()
                &&& sum.spec_view().spec_shape() == shape
                &&& sum.spec_view().spec_offset() == 0
                &&& exists|
                    lhs_elements: Seq<StorageType::Stored>,
                    rhs_elements: Seq<StorageType::Stored>,
                    sums: Vec<StorageType::Stored>,
                |
                    {
                        &&& #[trigger] storage_reads(&self.spec_storage(), lhs_elements)
                        &&& #[trigger] storage_reads(&rhs.spec_storage(), rhs_elements)
                        &&& #[trigger] sum.spec_storage().made_of(sums)
                        &&& summed(
                            lhs_elements,
                            &self.spec_view(),
                            rhs_elements,
                            &rhs.spec_view(),
                            sums@,
                        )
                    }
            },
            Err(ArrayError::ShapeMismatch(difference)) => {
                &&& !same
                &&& difference.found_in(shape, rhs.spec_view().spec_shape())
            },
            Err(ArrayError::InvalidShape(e)) => {
                &&& e == ShapeError::TooLarge
                &&& same
                &&& !representable(shape, 0)
            },
            Err(ArrayError::StorageError(e)) => {
                &&& same
                &&& representable(shape, 0)
                &&& {
                    ||| storage_refuses(&self.spec_storage(), e)
                    ||| storage_refuses(&rhs.spec_storage(), e)
                    ||| e == StorageError::TooShort && exists|elements: Seq<StorageType::Stored>|
                        #[trigger] storage_reads(&self.spec_storage(), elements) && !view_fits(
                            &self.spec_view(),
                            elements.len(),
                        )
                    ||| e == StorageError::TooShort && exists|elements: Seq<StorageType::Stored>|
                        #[trigger] storage_reads(&rhs.spec_storage(), elements) && !view_fits(
                            &rhs.spec_view(),
                            elements.len(),
                        )
                }
            },
            Err(ArrayError::Overflow) => {
                &&& same
                &&& representable(shape, 0)
                &&& exists|
                    lhs_elements: Seq<StorageType::Stored>,
                    rhs_elements: Seq<StorageType::Stored>,
                |
                    {
                        &&& #[trigger] storage_reads(&self.spec_storage(), lhs_elements)
                        &&& #[trigger] storage_reads(&rhs.spec_storage(), rhs_elements)
                        &&& view_fits(&self.spec_view(), lhs_elements.len())
                        &&& view_fits(&rhs.spec_view(), rhs_elements.len())
                        &&& overflows(
                            lhs_elements,
                            &self.spec_view(),
                            rhs_elements,
                            &rhs.spec_view(),
                        )
                    }
            },
            Err(_) => false,
        }
    }

    /// The elementwise sum of two arrays of one shape: a contiguous array
    /// of that shape over a new storage of its own, made of the sums of
    /// the elements that read guards of the two storages show.
    ///
    /// Fails with `ShapeMismatch` where the shapes differ, before anything
    /// is read or allocated. The operands are read one after the other, so
    /// that no guard is held while another is asked for. A storage that
    /// refuses the guard, or whose elements end before an element of its
    /// view, fails with `StorageError`; a sum that does not fit in the
    /// element type fails with `Overflow`.
    pub fn add<RhsStorage, RhsView>(&self, rhs: &Array<RhsStorage, RhsView>) -> (r: Result<
        Array<ThreadUnsafeStorage<StorageType::Stored>, ContiguousView>,
        ArrayError,
    >) where RhsStorage: Storage<Stored = StorageType::Stored>, RhsView: ArrayView
        requires
            self.wf(),
            rhs.wf(),
        ensures
            self.sum_result(rhs, r),
    {
        let shape = self.view.shape();
        if let Some(difference) = shape_difference(shape, rhs.view.shape()) {
            return Err(ArrayError::ShapeMismatch(difference));
        }
        let view = match ContiguousView::try_new_with_offset(shape, 0) {
            Some(view) => view,
            None => {
                return Err(ArrayError::InvalidShape(ShapeError::TooLarge));
            },
        };
        let zeros = zero_buffer::<StorageType::Stored>(view.numel());
        let ghost zero_elements = zeros@;
        let ghost mut lhs_elements: Seq<StorageType::Stored> = Seq::empty();
        let ghost mut rhs_elements: Seq<StorageType::Stored> = Seq::empty();
        let left = match self.storage.storage_get() {
            Ok(guard) => {
                let elements = guard.as_slice();
                proof {
                    lhs_elements = elements@;
                    assert(guard.shows(elements@));
                    assert(storage_reads(&self.spec_storage(), elements@));
                }
                match accumulate(zeros, elements, &self.view) {
                    Ok(left) => left,
                    Err(e) => {
                        proof {
                            if e == ArrayError::Overflow {
                                let k = choose|k: int|
                                    0 <= k < zero_elements.len() && !StorageType::Stored::representable(
                                        #[trigger] zero_elements[k].value() + element_at(
                                            lhs_elements,
                                            &self.view,
                                            k,
                                        ).value(),
                                    );
                                StorageType::Stored::lemma_value_representable(
                                    element_at(lhs_elements, &self.view, k),
                                );
                            }
                        }
                        return Err(e);
                    },
                }
            },
            Err(e) => {
                proof {
                    assert(storage_refuses(&self.spec_storage(), e));
                }
                return Err(ArrayError::StorageError(e));
            },
        };
        let ghost left_elements = left@;
        let sums = match rhs.storage.storage_get() {
            Ok(guard) => {
                let elements = guard.as_slice();
                proof {
                    rhs_elements = elements@;
                    assert(guard.shows(elements@));
                    assert(storage_reads(&rhs.spec_storage(), elements@));
                }
                match accumulate(left, elements, &rhs.view) {
                    Ok(sums) => sums,
                    Err(e) => {
                        proof {
                            if e == ArrayError::Overflow {
                                let k = choose|k: int|
                                    0 <= k < left_elements.len() && !StorageType::Stored::representable(
                                        #[trigger] left_elements[k].value() + element_at(
                                            rhs_elements,
                                            &rhs.view,
                                            k,
                                        ).value(),
                                    );
                                assert(left_elements[k].value() == zero_elements[k].value()
                                    + element_at(lhs_elements, &self.view, k).value());
                                assert(!StorageType::Stored::representable(
                                    element_at(lhs_elements, &self.view, k).value() + element_at(
                                        rhs_elements,
                                        &rhs.view,
                                        k,
                                    ).value(),
                                ));
                                assert(overflows(
                                    lhs_elements,
                                    &self.spec_view(),
                                    rhs_elements,
                                    &rhs.spec_view(),
                                ));
                            }
                        }
                        return Err(e);
                    },
                }
            },
            Err(e) => {
                proof {
                    assert(storage_refuses(&rhs.spec_storage(), e));
                }
                return Err(ArrayError::StorageError(e));
            },
        };
        proof {
            lemma_accumulated_twice(
                zero_elements,
                lhs_elements,
                &self.view,
                left_elements,
                rhs_elements,
                &rhs.view,
                sums@,
            );
        }
        let ghost summed_elements = sums;
        let sum = Array { storage: ThreadUnsafeStorage::new(sums), view };
        proof {
            assert(sum.spec_storage().made_of(summed_elements));
            assert(summed(
                lhs_elements,
                &self.spec_view(),
                rhs_elements,
                &rhs.spec_view(),
                summed_elements@,
            ));
        }
        Ok(sum)
    }
}

impl<'a, StorageType, ViewType, RhsStorage, RhsView> std::ops::Add<
    &'a Array<RhsStorage, RhsView>,
> for &'a Array<StorageType, ViewType> where
    StorageType: Storage,
    StorageType::Stored: Element,
    ViewType: ArrayView,
    RhsStorage: Storage<Stored = StorageType::Stored>,
    RhsView: ArrayView,
 {
    type Output = Result<
        Array<ThreadUnsafeStorage<StorageType::Stored>, ContiguousView>,
        ArrayError,
    >;

    /// The elementwise sum, as `Array::add` gives it.
    fn add(self, rhs: &'a Array<RhsStorage, RhsView>) -> (r: Self::Output)
        ensures
            self.sum_result(rhs, r),
    {
        Array::add(self, rhs)
    }
}

impl<'a, StorageType, ViewType, RhsStorage, RhsView> vstd::std_specs::ops::AddSpecImpl<
    &'a Array<RhsStorage, RhsView>,
> for &'a Array<StorageType, ViewType> where
    StorageType: Storage,
    StorageType::Stored: Element,
    ViewType: ArrayView,
    RhsStorage: Storage<Stored = StorageType::Stored>,
    RhsView: ArrayView,
 {
    open spec fn obeys_add_spec() -> bool {
        false
    }

    open spec fn add_req(self, rhs: &'a Array<RhsStorage, RhsView>) -> bool {
        self.wf() && rhs.wf()
    }

    open spec fn add_spec(self, rhs: &'a Array<RhsStorage, RhsView>) -> Self::Output {
        arbitrary()
    }
}

/// The first difference of two shapes, or `None` where they have the
/// same rank and the same size on every axis.
pub fn shape_difference(a: &[usize], b: &[usize]) -> (r: Option<ShapeDifference>)
    ensures
        match r {
            Some(difference) => a@ != b@ && difference.found_in(a@, b@),
            None => a@ == b@,
        },
{
    if a.len() != b.len() {
        return Some(ShapeDifference::Rank { lhs: a.len(), rhs: b.len() });
    }
    let mut i: usize = 0;
    while i < a.len()
        invariant
            a@.len() == b@.len(),
            0 <= i <= a@.len(),
            forall|j: int| 0 <= j < i ==> a@[j] == b@[j],
        decreases a@.len() - i,
    {
        if a[i] != b[i] {
            return Some(ShapeDifference::Axis { axis: i, lhs: a[i], rhs: b[i] });
        }
        i += 1;
    }
    assert(a@ =~= b@);
    None
}

/// Whether two shapes have the same rank and the same size on every axis.
pub fn same_shape(a: &[usize], b: &[usize]) -> (r: bool)
    ensures
        r == (a@ == b@),
{
    shape_difference(a, b).is_none()
}

} // verus!
