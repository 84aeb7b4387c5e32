//! The array: a handle to a storage and a view laid over its buffer.

use std::fmt::Display;
use vstd::prelude::*;
use vstd::std_specs::convert::FromSpec;
use vstd::string::StringExecFns;
use crate::arith::{
    checked_product, dot, in_bounds, is_row_major, lemma_dot_row_major, lemma_ravel_bound, product,
};
use crate::element::Element;
use crate::error::{ArrayError, ShapeError, StorageError};
use crate::formatter::{rendering, shows, texts, ArrayFormatter, VerboseFormatter};
use crate::shape_utils::{
    infer_shape, infer_shape_spec, inferred_count, lemma_infer_flat, lemma_infer_rows,
    lemma_infer_shape_sizes, normalized, ShapeDim,
};
use crate::storage::{storage_reads, storage_refuses, Storage};
use crate::views::{
    elements_of, lemma_same_elements, representable, view_fits, ArrayView, ContiguousView,
};

pub mod binops;

verus! {

/// A storage handle and a view of the buffer behind it. Arrays made from
/// one another by `reshape` and `get` share the storage; none of them
/// copies an element.
pub struct Array<StorageType, ViewType> {
    storage: StorageType,
    view: ViewType,
}

/// The shape that `reshape` gives to an array of `numel` elements at base
/// offset `offset` for the request `dims`, or the reason why it refuses.
pub open spec fn reshaped_shape(numel: usize, offset: usize, dims: Seq<ShapeDim>) -> Result<
    Seq<usize>,
    ArrayError,
> {
    match infer_shape_spec(dims, numel) {
        Err(e) => Err(ArrayError::InvalidShape(e)),
        Ok(shape) => if product(shape) != numel {
            Err(ArrayError::InvalidShape(ShapeError::SizeMismatch { numel }))
        } else if !representable(shape, offset) {
            Err(ArrayError::InvalidShape(ShapeError::TooLarge))
        } else {
            Ok(shape)
        },
    }
}

/// Reshaping to one open axis gives the flat shape of all elements,
/// whatever the array is.
pub proof fn lemma_reshape_flat(numel: usize, offset: usize)
    requires
        offset + numel <= usize::MAX,
    ensures
        reshaped_shape(numel, offset, seq![ShapeDim::Inferred]) == Ok::<Seq<usize>, ArrayError>(
            seq![numel],
        ),
{
    let shape = seq![numel];
    lemma_infer_flat(numel);
    lemma_infer_shape_sizes(seq![ShapeDim::Inferred], numel);
    assert forall|i: int| 0 < i <= shape.len() implies #[trigger] product(shape.skip(i))
        <= usize::MAX by {
        assert(shape.skip(i) =~= Seq::<usize>::empty());
    }
}

/// Reshaping to rows of `k` elements, the number of rows left open, gives
/// `numel / k` rows where `k` divides the number of elements.
pub proof fn lemma_reshape_rows(numel: usize, offset: usize, k: usize)
    requires
        offset + numel <= usize::MAX,
        k > 0,
        numel % k == 0,
    ensures
        reshaped_shape(numel, offset, seq![ShapeDim::Inferred, ShapeDim::Known(k)]) == Ok::<
            Seq<usize>,
            ArrayError,
        >(seq![(numel / k) as usize, k]),
{
    let dims = seq![ShapeDim::Inferred, ShapeDim::Known(k)];
    let shape = seq![(numel / k) as usize, k];
    lemma_infer_rows(numel, k);
    lemma_infer_shape_sizes(dims, numel);
    assert forall|i: int| 0 < i <= shape.len() implies #[trigger] product(shape.skip(i))
        <= usize::MAX by {
        if i == 1 {
            let tail = shape.skip(1);
            assert(tail[0] == k);
            assert(tail.skip(1) =~= Seq::<usize>::empty());
            assert(product(tail.skip(1)) == 1);
            assert(product(tail) == (tail[0] as nat) * product(tail.skip(1)));
        } else {
            assert(shape.skip(i) =~= Seq::<usize>::empty());
        }
    }
}

/// Reshaping with two or more open axes fails with `InvalidShape`,
/// whatever the array and the known axes are.
pub proof fn lemma_reshape_two_open_axes(numel: usize, offset: usize, dims: Seq<ShapeDim>)
    requires
        inferred_count(dims) >= 2,
    ensures
        reshaped_shape(numel, offset, dims) == Err::<Seq<usize>, ArrayError>(
            ArrayError::InvalidShape(ShapeError::MultipleInferred),
        ),
{
}

/// Whether `after` is the view that `reshape` gives to an array of view
/// `before` for the request `dims`: well-formed, at the same base offset,
/// of the shape that the request resolves to.
pub open spec fn is_reshape_of(
    after: &ContiguousView,
    before: &ContiguousView,
    dims: Seq<ShapeDim>,
) -> bool {
    &&& after.wf()
    &&& after.spec_offset() == before.spec_offset()
    &&& reshaped_shape(product(before.spec_shape()) as usize, before.spec_offset(), dims) == Ok::<
        Seq<usize>,
        ArrayError,
    >(after.spec_shape())
}

/// An array and every array that `reshape` makes of it show the same
/// elements in the same order, over every buffer that holds them.
pub proof fn lemma_reshape_keeps_elements<T>(
    buffer: Seq<T>,
    before: &ContiguousView,
    after: &ContiguousView,
    dims: Seq<ShapeDim>,
)
    requires
        before.wf(),
        is_reshape_of(after, before, dims),
        before.spec_offset() + product(before.spec_shape()) <= buffer.len(),
    ensures
        elements_of(buffer, after) == elements_of(buffer, before),
{
    before.lemma_contiguous();
    after.lemma_contiguous();
    lemma_same_elements(buffer, after, before);
}

/// Reshaping in two steps ends where reshaping in one step does: where
/// `first` comes of `array` by one request, `detour` of `first` by a
/// second, and `direct` of `array` by the second alone, `detour` and
/// `direct` have the same shape and base offset, and show the same
/// elements in the same order.
pub proof fn lemma_reshape_round_trip<T>(
    buffer: Seq<T>,
    array: &ContiguousView,
    first: &ContiguousView,
    detour: &ContiguousView,
    direct: &ContiguousView,
    first_dims: Seq<ShapeDim>,
    second_dims: Seq<ShapeDim>,
)
    requires
        array.wf(),
        is_reshape_of(first, array, first_dims),
        is_reshape_of(detour, first, second_dims),
        is_reshape_of(direct, array, second_dims),
        array.spec_offset() + product(array.spec_shape()) <= buffer.len(),
    ensures
        detour.spec_shape() == direct.spec_shape(),
        detour.spec_offset() == direct.spec_offset(),
        elements_of(buffer, detour) == elements_of(buffer, direct),
{
    lemma_reshape_keeps_elements(buffer, array, first, first_dims);
    lemma_reshape_keeps_elements(buffer, first, detour, second_dims);
    lemma_reshape_keeps_elements(buffer, array, direct, second_dims);
}

/// Over a buffer of zeros that holds as many elements as the shape asks
/// for, a contiguous view at offset zero shows a zero at every multi-index
/// in bounds.
pub proof fn lemma_zeros_read_zero<T: Element>(
    buffer: Seq<T>,
    view: &ContiguousView,
    idx: Seq<usize>,
)
    requires
        view.wf(),
        view.spec_offset() == 0,
        buffer.len() == product(view.spec_shape()),
        forall|i: int| 0 <= i < buffer.len() ==> (#[trigger] buffer[i]).value() == 0,
        in_bounds(idx, view.spec_shape()),
    ensures
        view.spec_offset() + dot(idx, view.spec_stride()) < buffer.len(),
        buffer[view.spec_offset() + dot(idx, view.spec_stride())].value() == 0,
{
    view.lemma_contiguous();
    lemma_dot_row_major(idx, view.spec_stride(), view.spec_shape());
    lemma_ravel_bound(idx, view.spec_shape());
}

/// Whether `buffer` holds `n` elements, every one of them zero.
pub open spec fn all_zero<T: Element>(buffer: Seq<T>, n: nat) -> bool {
    &&& buffer.len() == n
    &&& forall|i: int| 0 <= i < n ==> (#[trigger] buffer[i]).value() == 0
}

/// A buffer of `n` zeros.
pub fn zero_buffer<T: Element>(n: usize) -> (buffer: Vec<T>)
    ensures
        all_zero(buffer@, n as nat),
{
    let mut buffer: Vec<T> = Vec::new();
    let mut i: usize = 0;
    while i < n
        invariant
            0 <= i <= n,
            buffer@.len() == i,
            forall|j: int| 0 <= j < i ==> (#[trigger] buffer@[j]).value() == 0,
        decreases n - i,
    {
        buffer.push(T::zero());
        i += 1;
    }
    buffer
}

/// The single element that a view of one element shows over `elements`:
/// the element at the base offset of the view. `SizeError` unless the view
/// holds exactly one element, and `StorageError` where `elements` end
/// before the offset.
pub open spec fn item_in<T, ViewType: ArrayView>(elements: Seq<T>, view: &ViewType) -> Result<
    T,
    ArrayError,
> {
    if product(view.spec_shape()) != 1 {
        Err(ArrayError::SizeError { numel: product(view.spec_shape()) as usize })
    } else if view.spec_offset() >= elements.len() {
        Err(ArrayError::StorageError(StorageError::TooShort))
    } else {
        Ok(elements[view.spec_offset() as int])
    }
}

/// The single element of a view of one element over `buffer`.
///
/// Fails with `SizeError` unless the view holds exactly one element, and
/// with `StorageError` where the buffer ends before that element.
pub fn item_of<T: Copy, ViewType: ArrayView>(buffer: &[T], view: &ViewType) -> (r: Result<
    T,
    ArrayError,
>)
    requires
        view.wf(),
    ensures
        r == item_in(buffer@, view),
{
    let numel = view.numel();
    if numel != 1 {
        return Err(ArrayError::SizeError { numel });
    }
    let offset = view.offset();
    if offset >= buffer.len() {
        return Err(ArrayError::StorageError(StorageError::TooShort));
    }
    Ok(buffer[offset])
}

impl<StorageType: Storage, ViewType: ArrayView> Array<StorageType, ViewType> {
    /// The storage handle of the array.
    pub closed spec fn spec_storage(&self) -> StorageType {
        self.storage
    }

    /// The view of the array.
    pub closed spec fn spec_view(&self) -> ViewType {
        self.view
    }

    /// What holds of every array that this module hands out: its view is
    /// well-formed.
    pub open spec fn wf(&self) -> bool {
        self.spec_view().wf()
    }

    /// The storage handle of the array.
    pub fn storage(&self) -> (r: &StorageType)
        ensures
            *r == self.spec_storage(),
    {
        &self.storage
    }

    /// The storage handle of the array, for access that writes.
    pub fn storage_mut(&mut self) -> (r: &mut StorageType)
        ensures
            *r == old(self).spec_storage(),
            final(self).spec_storage() == *final(r),
            final(self).spec_view() == old(self).spec_view(),
    {
        &mut self.storage
    }

    /// The physical offset of the element at multi-index zero.
    pub fn storage_offset(&self) -> (r: usize)
        ensures
            r == self.spec_view().spec_offset(),
    {
        self.view.offset()
    }

    /// The size of each axis.
    pub fn shape(&self) -> (r: &[usize])
        ensures
            r@ == self.spec_view().spec_shape(),
    {
        self.view.shape()
    }

    /// The number of elements to skip to advance one step along each axis.
    pub fn stride(&self) -> (r: &[usize])
        ensures
            r@ == self.spec_view().spec_stride(),
    {
        self.view.stride()
    }

    /// The number of axes.
    pub fn ndim(&self) -> (r: usize)
        ensures
            r == self.spec_view().spec_shape().len(),
    {
        self.view.ndim()
    }

    /// The number of elements.
    pub fn numel(&self) -> (r: usize)
        requires
            self.wf(),
        ensures
            r == product(self.spec_view().spec_shape()),
    {
        self.view.numel()
    }

    /// Whether the elements lie side by side in row-major order.
    pub fn is_contiguous(&self) -> (r: bool)
        requires
            self.wf(),
        ensures
            r == is_row_major(self.spec_view().spec_stride(), self.spec_view().spec_shape()),
    {
        self.view.is_contiguous()
    }

    /// The length of the buffer behind the array, where the storage grants
    /// access.
    pub fn storage_size(&self) -> (r: Result<usize, StorageError>)
        ensures
            self.spec_storage().len_outcome(r),
            r matches Err(e) ==> e != StorageError::TooShort,
    {
        self.storage.storage_len()
    }

    /// The array of the one element at multi-index `idx`: shape `[1]`, at
    /// the offset of that element, over the same storage.
    ///
    /// Fails with `IndexError` where `idx` has not the rank of the array or
    /// a component is not below the size of its axis.
    pub fn get(&self, idx: &[usize]) -> (r: Result<Array<StorageType, ContiguousView>, ArrayError>)
        requires
            self.wf(),
        ensures
            match r {
                Ok(element) => {
                    &&& in_bounds(idx@, self.spec_view().spec_shape())
                    &&& element.wf()
                    &&& element.spec_storage() == self.spec_storage()
                    &&& element.spec_view().spec_shape() == seq![1usize]
                    &&& product(element.spec_view().spec_shape()) == 1
                    &&& element.spec_view().spec_offset() == self.spec_view().spec_offset() + dot(
                        idx@,
                        self.spec_view().spec_stride(),
                    )
                },
                Err(e) => {
                    &&& !in_bounds(idx@, self.spec_view().spec_shape())
                    &&& e matches ArrayError::IndexError(fault)
                    &&& fault.found_in(idx@, self.spec_view().spec_shape())
                },
            },
    {
        let offset = match self.view.try_translate(idx) {
            Ok(offset) => offset,
            Err(e) => {
                return Err(e);
            },
        };
        let one: [usize; 1] = [1];
        proof {
            self.view.lemma_wf();
            lemma_unit_shape(one@, offset);
        }
        let view = ContiguousView::new_with_offset(one.as_slice(), offset);
        let storage = self.storage.clone();
        proof {
            StorageType::lemma_clone_is_same(self.storage, storage);
        }
        Ok(Array { storage, view })
    }
}

/// The shape `[1]` can be laid at every offset below `usize::MAX`.
proof fn lemma_unit_shape(shape: Seq<usize>, offset: usize)
    requires
        shape.len() == 1,
        shape[0] == 1,
        offset < usize::MAX,
    ensures
        shape == seq![1usize],
        representable(shape, offset),
        product(shape) == 1,
{
    assert(shape =~= seq![1usize]);
    reveal_with_fuel(product, 2);
    assert(shape.skip(1) =~= Seq::<usize>::empty());
    assert(product(shape) == (shape[0] as nat) * product(shape.skip(1)));
    assert forall|i: int| 0 < i <= shape.len() implies #[trigger] product(shape.skip(i))
        <= usize::MAX by {
        assert(shape.skip(i) =~= Seq::<usize>::empty());
    }
}

impl<StorageType: Storage, ViewType: ArrayView> Array<StorageType, ViewType> where
    StorageType::Stored: Copy,
 {
    /// The element of an array that holds exactly one: the element at the
    /// base offset of the view, of the elements that a read guard of the
    /// storage shows.
    ///
    /// Fails with `SizeError` on every array of another size, and with
    /// `StorageError` where the storage refuses the guard or where the
    /// elements that the guard shows end before the offset.
    pub fn item(&self) -> (r: Result<StorageType::Stored, ArrayError>)
        requires
            self.wf(),
        ensures
            product(self.spec_view().spec_shape()) != 1 ==> r == Err::<
                StorageType::Stored,
                ArrayError,
            >(ArrayError::SizeError { numel: product(self.spec_view().spec_shape()) as usize }),
            product(self.spec_view().spec_shape()) == 1 ==> {
                ||| exists|elements: Seq<StorageType::Stored>|
                    {
                        &&& #[trigger] storage_reads(&self.spec_storage(), elements)
                        &&& r == item_in(elements, &self.spec_view())
                    }
                ||| exists|e: StorageError|
                    {
                        &&& #[trigger] storage_refuses(&self.spec_storage(), e)
                        &&& r == Err::<StorageType::Stored, ArrayError>(
                            ArrayError::StorageError(e),
                        )
                    }
            },
    {
        let numel = self.view.numel();
        if numel != 1 {
            return Err(ArrayError::SizeError { numel });
        }
        match self.storage.storage_get() {
            Ok(guard) => {
                let elements = guard.as_slice();
                proof {
                    assert(guard.shows(elements@));
                    assert(storage_reads(&self.spec_storage(), elements@));
                }
                item_of(elements, &self.view)
            },
            Err(e) => {
                proof {
                    assert(storage_refuses(&self.spec_storage(), e));
                }
                Err(ArrayError::StorageError(e))
            },
        }
    }
}

impl<StorageType: Storage, ViewType: ArrayView> Array<StorageType, ViewType> where
    StorageType::Stored: Display,
 {
    /// The array as text: the elements that a read guard of the storage
    /// shows, as a table for two axes, one bracketed row on each line, and
    /// as a flat bracketed list for any other number of axes. Where the
    /// storage refuses the guard, or the elements that the guard shows end
    /// before an element of the view, the text names that failure instead.
    pub fn to_string(&self) -> (text: String)
        requires
            self.wf(),
        ensures
            ({
                ||| exists|elements: Seq<StorageType::Stored>, cells: Seq<String>|
                    {
                        &&& #[trigger] storage_reads(&self.spec_storage(), elements)
                        &&& view_fits(&self.spec_view(), elements.len())
                        &&& #[trigger] shows(cells, elements, &self.spec_view())
                        &&& text@ == rendering(texts(cells), self.spec_view().spec_shape())
                    }
                ||| exists|elements: Seq<StorageType::Stored>|
                    {
                        &&& #[trigger] storage_reads(&self.spec_storage(), elements)
                        &&& !view_fits(&self.spec_view(), elements.len())
                        &&& text@ == failure_words(StorageError::TooShort)
                    }
                ||| exists|e: StorageError|
                    {
                        &&& #[trigger] storage_refuses(&self.spec_storage(), e)
                        &&& text@ == failure_words(e)
                    }
            }),
    {
        match self.storage.storage_get() {
            Ok(guard) => {
                let elements = guard.as_slice();
                proof {
                    assert(guard.shows(elements@));
                    assert(storage_reads(&self.spec_storage(), elements@));
                }
                let formatter = VerboseFormatter::new(elements, &self.view);
                match formatter.format() {
                    Ok(text) => {
                        proof {
                            let cells = choose|cells: Seq<String>|
                                {
                                    &&& #[trigger] shows(
                                        cells,
                                        formatter.spec_storage(),
                                        formatter.spec_view(),
                                    )
                                    &&& text@ == rendering(
                                        texts(cells),
                                        formatter.spec_view().spec_shape(),
                                    )
                                };
                            assert(shows(cells, elements@, &self.spec_view()));
                        }
                        text
                    },
                    Err(_) => failure_text(StorageError::TooShort),
                }
            },
            Err(e) => {
                proof {
                    assert(storage_refuses(&self.spec_storage(), e));
                }
                failure_text(e)
            },
        }
    }
}

/// The text that stands for an array whose elements could not be read.
pub open spec fn failure_words(e: StorageError) -> Seq<char> {
    "error while formatting array: "@ + e.words()
}

/// The text that stands for an array whose elements could not be read.
fn failure_text(e: StorageError) -> (text: String)
    ensures
        text@ == failure_words(e),
{
    let mut text = "error while formatting array: ".to_owned();
    text.append(e.message().as_str());
    text
}

impl<StorageType: Storage> Array<StorageType, ContiguousView> where StorageType::Stored: Element {
    /// An array of shape `shape` over a new storage, made of a buffer of
    /// one zero for each element.
    ///
    /// Fails with `InvalidShape` where the shape asks for more elements, or
    /// for a larger stride, than `usize` can count.
    pub fn zeros(shape: &[usize]) -> (r: Result<Self, ArrayError>)
        ensures
            match r {
                Ok(array) => {
                    &&& representable(shape@, 0)
                    &&& array.wf()
                    &&& array.spec_view().spec_shape() == shape@
                    &&& array.spec_view().spec_offset() == 0
                    &&& exists|buffer: Vec<StorageType::Stored>|
                        {
                            &&& #[trigger] array.spec_storage().storage_made_of(buffer)
                            &&& all_zero(buffer@, product(shape@))
                        }
                },
                Err(e) => e == ArrayError::InvalidShape(ShapeError::TooLarge) && !representable(
                    shape@,
                    0,
                ),
            },
    {
        let view = match ContiguousView::try_new_with_offset(shape, 0) {
            Some(view) => view,
            None => {
                return Err(ArrayError::InvalidShape(ShapeError::TooLarge));
            },
        };
        let buffer = zero_buffer::<StorageType::Stored>(view.numel());
        let ghost zeros = buffer;
        let storage = StorageType::storage_from(buffer);
        let array = Array { storage, view };
        assert(array.spec_storage().storage_made_of(zeros) && all_zero(zeros@, product(shape@)));
        Ok(array)
    }
}

impl<StorageType: Storage> Array<StorageType, ContiguousView> {
    /// The same elements under another shape: a contiguous view of the
    /// resolved shape at the same base offset, over the same storage.
    ///
    /// The request is resolved against the number of elements. It fails
    /// with `InvalidShape` where it cannot be resolved, where the resolved
    /// shape holds another number of elements, and where a stride of the
    /// resolved shape does not fit in `usize`.
    pub fn reshape<SizeType: Copy>(&self, shape: &[SizeType]) -> (r: Result<Self, ArrayError>) where
        ShapeDim: From<SizeType>,

        requires
            self.wf(),
        ensures
            r matches Ok(array) ==> {
                &&& array.wf()
                &&& array.spec_storage() == self.spec_storage()
                &&& array.spec_view().spec_offset() == self.spec_view().spec_offset()
                &&& product(array.spec_view().spec_shape()) == product(
                    self.spec_view().spec_shape(),
                )
            },
            r matches Err(e) ==> e is InvalidShape,
            <ShapeDim as FromSpec<SizeType>>::obeys_from_spec() ==> match r {
                Ok(array) => is_reshape_of(
                    &array.spec_view(),
                    &self.spec_view(),
                    normalized(shape@),
                ),
                Err(e) => reshaped_shape(
                    product(self.spec_view().spec_shape()) as usize,
                    self.spec_view().spec_offset(),
                    normalized(shape@),
                ) == Err::<Seq<usize>, ArrayError>(e),
            },
    {
        let numel = self.view.numel();
        let new_shape = match infer_shape(shape, numel) {
            Ok(new_shape) => new_shape,
            Err(e) => {
                return Err(ArrayError::InvalidShape(e));
            },
        };
        match checked_product(new_shape.as_slice()) {
            Some(n) => {
                if n != numel {
                    return Err(ArrayError::InvalidShape(ShapeError::SizeMismatch { numel }));
                }
            },
            None => {
                return Err(ArrayError::InvalidShape(ShapeError::SizeMismatch { numel }));
            },
        }
        let view = match ContiguousView::try_new_with_offset(
            new_shape.as_slice(),
            self.view.offset(),
        ) {
            Some(view) => view,
            None => {
                return Err(ArrayError::InvalidShape(ShapeError::TooLarge));
            },
        };
        let storage = self.storage.clone();
        proof {
            StorageType::lemma_clone_is_same(self.storage, storage);
        }
        Ok(Array { storage, view })
    }
}

} // verus!
