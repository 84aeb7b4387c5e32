//! Views: the shape, stride and base offset that map a multi-index to a
//! physical offset in a flat buffer.

use vstd::prelude::*;
use crate::arith::{
    checked_product, dot, has_zero, in_bounds, is_row_major, lemma_dot_monotone,
    lemma_dot_row_major, lemma_dot_suffix_le, lemma_in_bounds_no_zero, lemma_product_skip,
    lemma_product_suffix_le, lemma_product_zero, lemma_ravel_bound, lemma_unravel, product,
    unravel,
};
use crate::error::{ArrayError, IndexFault};
use crate::utils::contains_zero;
use crate::view_iters::{offset_run, ContiguousViewIterator};

verus! {

/// What every view offers: its metadata and the map from a
/// multi-index to a physical offset.
pub trait ArrayView: Sized {
    type IterType;

    /// The size of each axis.
    spec fn spec_shape(&self) -> Seq<usize>;

    /// The number of elements to skip to advance one step along each axis.
    spec fn spec_stride(&self) -> Seq<usize>;

    /// The physical offset of the multi-index zero.
    spec fn spec_offset(&self) -> usize;

    /// What holds of every view that its constructors hand out.
    spec fn wf(&self) -> bool;

    /// A well-formed view has a stride for each axis, a number of elements
    /// that fits in `usize`, and translates every multi-index in bounds to
    /// an offset below `usize::MAX`, the length that no buffer exceeds.
    proof fn lemma_wf(&self)
        requires
            self.wf(),
        ensures
            self.spec_stride().len() == self.spec_shape().len(),
            product(self.spec_shape()) <= usize::MAX,
            forall|idx: Seq<usize>| #[trigger]
                in_bounds(idx, self.spec_shape()) ==> self.spec_offset() + dot(
                    idx,
                    self.spec_stride(),
                ) < usize::MAX,
    ;

    /// The physical offset of `idx`: the base offset plus the dot product
    /// of `idx` and the stride. The index is not checked against the shape.
    fn translate(&self, idx: &[usize]) -> (r: usize)
        requires
            self.wf(),
            self.spec_offset() + dot(idx@, self.spec_stride()) <= usize::MAX,
        ensures
            r == self.spec_offset() + dot(idx@, self.spec_stride()),
    ;

    /// The physical offset of the multi-index zero.
    fn offset(&self) -> (r: usize)
        ensures
            r == self.spec_offset(),
    ;

    /// The size of each axis.
    fn shape(&self) -> (r: &[usize])
        ensures
            r@ == self.spec_shape(),
    ;

    /// The number of elements to skip to advance one step along each axis.
    fn stride(&self) -> (r: &[usize])
        ensures
            r@ == self.spec_stride(),
    ;

    /// The number of axes.
    fn ndim(&self) -> (r: usize)
        ensures
            r == self.spec_shape().len(),
    {
        self.shape().len()
    }

    /// The number of elements.
    fn numel(&self) -> (r: usize)
        requires
            self.wf(),
        ensures
            r == product(self.spec_shape()),
    {
        proof {
            self.lemma_wf();
        }
        match checked_product(self.shape()) {
            Some(n) => n,
            None => unreached(),
        }
    }

    /// Whether the stride is the row-major stride of the shape.
    fn is_contiguous(&self) -> (r: bool)
        requires
            self.wf(),
        ensures
            r == is_row_major(self.spec_stride(), self.spec_shape()),
    ;

    /// The physical offsets of a full traversal in row-major order.
    fn translate_iter(&self) -> (it: Self::IterType)
        requires
            self.wf(),
    ;

    /// The physical offset of `idx`, or `IndexError` where `idx` has not
    /// the rank of the view or a component is not below the size of its
    /// axis. The error names the first such fault.
    fn try_translate(&self, idx: &[usize]) -> (r: Result<usize, ArrayError>)
        requires
            self.wf(),
        ensures
            match r {
                Ok(offset) => {
                    &&& in_bounds(idx@, self.spec_shape())
                    &&& offset == self.spec_offset() + dot(idx@, self.spec_stride())
                },
                Err(e) => {
                    &&& !in_bounds(idx@, self.spec_shape())
                    &&& e matches ArrayError::IndexError(fault)
                    &&& fault.found_in(idx@, self.spec_shape())
                },
            },
    {
        let shape = self.shape();
        if idx.len() != shape.len() {
            return Err(
                ArrayError::IndexError(IndexFault::Rank { index: idx.len(), view: shape.len() }),
            );
        }
        let mut i: usize = 0;
        while i < idx.len()
            invariant
                shape@ == self.spec_shape(),
                idx@.len() == shape@.len(),
                0 <= i <= idx@.len(),
                forall|j: int| 0 <= j < i ==> idx@[j] < shape@[j],
            decreases idx@.len() - i,
        {
            if idx[i] >= shape[i] {
                assert(!(idx@[i as int] < shape@[i as int]));
                return Err(
                    ArrayError::IndexError(
                        IndexFault::Bound { axis: i, component: idx[i], size: shape[i] },
                    ),
                );
            }
            i += 1;
        }
        proof {
            self.lemma_wf();
            assert(in_bounds(idx@, self.spec_shape()));
        }
        Ok(self.translate(idx))
    }
}

/// Whether every element of `view` lies in a buffer of `len` elements.
pub open spec fn view_fits<ViewType: ArrayView>(view: &ViewType, len: nat) -> bool {
    forall|idx: Seq<usize>| #[trigger]
        in_bounds(idx, view.spec_shape()) ==> view.spec_offset() + dot(idx, view.spec_stride())
            < len
}

/// The element of `buffer` that `view` shows at position `k` of its
/// row-major traversal.
pub open spec fn element_at<T, ViewType: ArrayView>(
    buffer: Seq<T>,
    view: &ViewType,
    k: int,
) -> T {
    buffer[view.spec_offset() + dot(unravel(k as nat, view.spec_shape()), view.spec_stride())]
}

/// Whether every element of `view` lies in a buffer of `len` elements.
pub fn fits_buffer<ViewType: ArrayView>(view: &ViewType, len: usize) -> (r: bool)
    requires
        view.wf(),
    ensures
        r == view_fits(view, len as nat),
{
    let shape = view.shape();
    if contains_zero(shape) {
        proof {
            assert forall|idx: Seq<usize>| #[trigger]
                in_bounds(idx, view.spec_shape()) implies view.spec_offset() + dot(
                idx,
                view.spec_stride(),
            ) < len by {
                lemma_in_bounds_no_zero(idx, view.spec_shape());
            }
        }
        return true;
    }
    let mut last: Vec<usize> = Vec::new();
    let mut i: usize = 0;
    while i < shape.len()
        invariant
            0 <= i <= shape@.len(),
            !has_zero(shape@),
            last@.len() == i,
            forall|j: int| 0 <= j < i ==> last@[j] + 1 == shape@[j],
        decreases shape@.len() - i,
    {
        assert(shape@[i as int] != 0);
        last.push(shape[i] - 1);
        i += 1;
    }
    proof {
        view.lemma_wf();
        assert(in_bounds(last@, view.spec_shape()));
    }
    let end = view.translate(last.as_slice());
    proof {
        if end < len {
            assert forall|idx: Seq<usize>| #[trigger]
                in_bounds(idx, view.spec_shape()) implies view.spec_offset() + dot(
                idx,
                view.spec_stride(),
            ) < len by {
                lemma_dot_monotone(idx, last@, view.spec_stride());
            }
        }
    }
    end < len
}

/// Whether a contiguous view of shape `shape` at base offset `offset` can
/// be held: every stride fits in `usize`, and so does the offset one past
/// the last element.
pub open spec fn representable(shape: Seq<usize>, offset: usize) -> bool {
    &&& forall|i: int| 0 < i <= shape.len() ==> #[trigger] product(shape.skip(i)) <= usize::MAX
    &&& offset + product(shape) <= usize::MAX
}

/// A shape without a zero axis is representable as soon as its last
/// element has an offset that fits.
pub proof fn lemma_representable_no_zero(shape: Seq<usize>, offset: usize)
    requires
        !has_zero(shape),
        offset + product(shape) <= usize::MAX,
    ensures
        representable(shape, offset),
{
    assert forall|i: int| 0 < i <= shape.len() implies #[trigger] product(shape.skip(i))
        <= usize::MAX by {
        lemma_product_suffix_le(shape, i);
    }
}

/// A view whose elements lie side by side in row-major order, from a base
/// offset on.
#[derive(Debug)]
pub struct ContiguousView {
    shape: Vec<usize>,
    offset: usize,
    stride: Vec<usize>,
}

impl ContiguousView {
    /// The contiguous view of shape `shape` that starts at offset zero.
    pub fn new(shape: &[usize]) -> (view: Self)
        requires
            representable(shape@, 0),
        ensures
            view.wf(),
            view.spec_shape() == shape@,
            view.spec_offset() == 0,
    {
        Self::new_with_offset(shape, 0)
    }

    /// The contiguous view of shape `shape` that starts at `offset`.
    pub fn new_with_offset(shape: &[usize], offset: usize) -> (view: Self)
        requires
            representable(shape@, offset),
        ensures
            view.wf(),
            view.spec_shape() == shape@,
            view.spec_offset() == offset,
    {
        match Self::try_new_with_offset(shape, offset) {
            Some(view) => view,
            None => unreached(),
        }
    }

    /// The contiguous view of shape `shape` that starts at `offset`, or
    /// `None` where a stride or the end of the view does not fit in `usize`.
    pub fn try_new_with_offset(shape: &[usize], offset: usize) -> (r: Option<Self>)
        ensures
            r is Some <==> representable(shape@, offset),
            r matches Some(view) ==> {
                &&& view.wf()
                &&& view.spec_shape() == shape@
                &&& view.spec_offset() == offset
            },
    {
        let stride = match Self::compute_stride(shape) {
            Some(stride) => stride,
            None => {
                return None;
            },
        };
        let numel = match checked_product(shape) {
            Some(numel) => numel,
            None => {
                return None;
            },
        };
        if numel > usize::MAX - offset {
            return None;
        }
        Some(Self { shape: vstd::slice::slice_to_vec(shape), offset, stride })
    }

    /// The row-major stride of `shape`: the stride of an axis is the
    /// product of the sizes of the axes after it. `None` where one of them
    /// does not fit in `usize`.
    fn compute_stride(shape: &[usize]) -> (r: Option<Vec<usize>>)
        ensures
            match r {
                Some(stride) => {
                    &&& is_row_major(stride@, shape@)
                    &&& forall|i: int|
                        0 < i <= shape@.len() ==> #[trigger] product(shape@.skip(i)) <= usize::MAX
                },
                None => exists|i: int|
                    0 < i <= shape@.len() && #[trigger] product(shape@.skip(i)) > usize::MAX,
            },
    {
        let ndim = shape.len();
        let mut stride: Vec<usize> = Vec::new();
        let mut k: usize = 0;
        while k < ndim
            invariant
                0 <= k <= ndim,
                stride@.len() == k,
            decreases ndim - k,
        {
            stride.push(0);
            k += 1;
        }
        let mut acc: usize = 1;
        let mut i: usize = ndim;
        proof {
            assert(shape@.skip(ndim as int) =~= Seq::<usize>::empty());
        }
        while i > 0
            invariant
                ndim == shape@.len(),
                stride@.len() == ndim,
                0 <= i <= ndim,
                acc == product(shape@.skip(i as int)),
                forall|j: int| i <= j < ndim ==> stride@[j] == product(shape@.skip(j + 1)),
                forall|j: int| i <= j <= ndim ==> #[trigger] product(shape@.skip(j)) <= usize::MAX,
            decreases i,
        {
            i -= 1;
            stride[i] = acc;
            if i > 0 {
                proof {
                    lemma_product_skip(shape@, i as int);
                }
                match shape[i].checked_mul(acc) {
                    Some(next) => {
                        acc = next;
                    },
                    None => {
                        assert(product(shape@.skip(i as int)) > usize::MAX);
                        return None;
                    },
                }
            } else {
                // The product of the whole shape is no stride.
                return Some(stride);
            }
        }
        Some(stride)
    }
}

impl ArrayView for ContiguousView {
    type IterType = ContiguousViewIterator;

    closed spec fn spec_shape(&self) -> Seq<usize> {
        self.shape@
    }

    closed spec fn spec_stride(&self) -> Seq<usize> {
        self.stride@
    }

    closed spec fn spec_offset(&self) -> usize {
        self.offset
    }

    closed spec fn wf(&self) -> bool {
        &&& is_row_major(self.stride@, self.shape@)
        &&& self.offset + product(self.shape@) <= usize::MAX
    }

    proof fn lemma_wf(&self) {
        assert forall|idx: Seq<usize>| #[trigger]
            in_bounds(idx, self.spec_shape()) implies self.spec_offset() + dot(
            idx,
            self.spec_stride(),
        ) < usize::MAX by {
            lemma_dot_row_major(idx, self.stride@, self.shape@);
            lemma_ravel_bound(idx, self.shape@);
        }
    }

    fn translate(&self, idx: &[usize]) -> (r: usize) {
        let n = if idx.len() < self.stride.len() {
            idx.len()
        } else {
            self.stride.len()
        };
        let mut sum: usize = 0;
        let mut i: usize = n;
        proof {
            assert(idx@.skip(n as int).len() == 0 || self.stride@.skip(n as int).len() == 0);
        }
        while i > 0
            invariant
                0 <= i <= n,
                n <= idx@.len(),
                n <= self.stride@.len(),
                sum == dot(idx@.skip(i as int), self.stride@.skip(i as int)),
                self.offset + dot(idx@, self.stride@) <= usize::MAX,
            decreases i,
        {
            i -= 1;
            proof {
                assert(idx@.skip(i as int).skip(1) =~= idx@.skip(i + 1));
                assert(self.stride@.skip(i as int).skip(1) =~= self.stride@.skip(i + 1));
                lemma_dot_suffix_le(idx@, self.stride@, i as int);
                assert((idx@[i as int] as nat) * (self.stride@[i as int] as nat) >= 0)
                    by (nonlinear_arith);
            }
            sum = idx[i] * self.stride[i] + sum;
        }
        proof {
            assert(idx@.skip(0) =~= idx@);
            assert(self.stride@.skip(0) =~= self.stride@);
        }
        self.offset + sum
    }

    fn offset(&self) -> (r: usize) {
        self.offset
    }

    fn shape(&self) -> (r: &[usize]) {
        self.shape.as_slice()
    }

    fn stride(&self) -> (r: &[usize]) {
        self.stride.as_slice()
    }

    fn is_contiguous(&self) -> (r: bool) {
        true
    }

    fn translate_iter(&self) -> (it: ContiguousViewIterator)
        ensures
            it.remaining() == offset_run(
                self.spec_offset(),
                (self.spec_offset() + product(self.spec_shape())) as usize,
            ),
    {
        let begin = self.offset;
        let end = begin + self.numel();
        ContiguousViewIterator::new(begin, end)
    }
}

impl ContiguousView {
    /// A well-formed contiguous view has the row-major stride of its
    /// shape, and the offset one past its last element fits in `usize`.
    pub proof fn lemma_contiguous(&self)
        requires
            self.wf(),
        ensures
            is_row_major(self.spec_stride(), self.spec_shape()),
            self.spec_offset() + product(self.spec_shape()) <= usize::MAX,
    {
    }
}

/// The elements that `view` shows over `buffer`, in the order of its
/// row-major traversal.
pub open spec fn elements_of<T, ViewType: ArrayView>(buffer: Seq<T>, view: &ViewType) -> Seq<T> {
    Seq::new(product(view.spec_shape()), |k: int| element_at(buffer, view, k))
}

/// Under a row-major stride, the element at position `k` of the row-major
/// traversal lies `k` elements after the base offset: the traversal walks
/// a dense run.
pub proof fn lemma_row_major_offset<ViewType: ArrayView>(view: &ViewType, k: nat)
    requires
        is_row_major(view.spec_stride(), view.spec_shape()),
        k < product(view.spec_shape()),
    ensures
        view.spec_offset() + dot(unravel(k, view.spec_shape()), view.spec_stride())
            == view.spec_offset() + k,
{
    let shape = view.spec_shape();
    if has_zero(shape) {
        lemma_product_zero(shape);
    }
    lemma_unravel(k, shape);
    lemma_dot_row_major(unravel(k, shape), view.spec_stride(), shape);
}

/// Under a row-major stride, the elements that a view shows are the run of
/// the buffer from the base offset on, as long as the view has elements.
pub proof fn lemma_row_major_elements<T, ViewType: ArrayView>(buffer: Seq<T>, view: &ViewType)
    requires
        is_row_major(view.spec_stride(), view.spec_shape()),
        view.spec_offset() + product(view.spec_shape()) <= buffer.len(),
    ensures
        elements_of(buffer, view) == buffer.subrange(
            view.spec_offset() as int,
            view.spec_offset() + product(view.spec_shape()),
        ),
{
    let run = buffer.subrange(
        view.spec_offset() as int,
        view.spec_offset() + product(view.spec_shape()),
    );
    assert forall|k: int| 0 <= k < product(view.spec_shape()) implies elements_of(buffer, view)[k]
        == run[k] by {
        lemma_row_major_offset(view, k as nat);
    }
    assert(elements_of(buffer, view) =~= run);
}

/// Two views with row-major strides that start at the same offset and
/// hold the same number of elements show the same elements in the same
/// order, whatever their shapes are.
pub proof fn lemma_same_elements<T, A: ArrayView, B: ArrayView>(buffer: Seq<T>, a: &A, b: &B)
    requires
        is_row_major(a.spec_stride(), a.spec_shape()),
        is_row_major(b.spec_stride(), b.spec_shape()),
        a.spec_offset() == b.spec_offset(),
        product(a.spec_shape()) == product(b.spec_shape()),
        a.spec_offset() + product(a.spec_shape()) <= buffer.len(),
    ensures
        elements_of(buffer, a) == elements_of(buffer, b),
{
    lemma_row_major_elements(buffer, a);
    lemma_row_major_elements(buffer, b);
}

/// The run of offsets that `translate_iter` of a contiguous view walks
/// holds, at each position, the offset to which the view translates the
/// multi-index at that position of the row-major traversal.
pub proof fn lemma_translate_iter_offsets(view: &ContiguousView, k: nat)
    requires
        view.wf(),
        k < product(view.spec_shape()),
    ensures
        offset_run(
            view.spec_offset(),
            (view.spec_offset() + product(view.spec_shape())) as usize,
        )[k as int] == view.spec_offset() + dot(
            unravel(k, view.spec_shape()),
            view.spec_stride(),
        ),
{
    view.lemma_contiguous();
    lemma_row_major_offset(view, k);
}

} // verus!
