//! Walking the multi-indices of a shape in row-major order.

use vstd::prelude::*;
use crate::arith::{
    has_zero, in_bounds, lemma_product_positive, lemma_ravel_bound, lemma_ravel_last,
    lemma_ravel_step, lemma_ravel_zero, lemma_unravel, lemma_unravel_ravel, product, ravel,
    unravel, zero_index,
};

verus! {

/// Whether a step reached another multi-index or ran off the end.
#[derive(Clone, Copy, Debug, PartialEq, Eq, Structural)]
pub enum UpdaterResult {
    NotDone,
    Done,
}

/// Where an iteration stands.
#[derive(Clone, Copy, Debug, PartialEq, Eq, Structural)]
pub enum IndexState {
    NotStarted,
    InProgress,
    Finished,
}

/// How many multi-indices an iteration over `shape` yields: one for each
/// element, and the zero index alone where an axis has size zero.
pub open spec fn index_count(shape: Seq<usize>) -> nat {
    if has_zero(shape) {
        1
    } else {
        product(shape)
    }
}

/// The multi-index that an iteration over `shape` yields at position `k`.
pub open spec fn index_at(shape: Seq<usize>, k: nat) -> Seq<usize> {
    if has_zero(shape) {
        zero_index(shape.len())
    } else {
        unravel(k, shape)
    }
}

/// An iteration yields at least one multi-index, and the first one is zero
/// on every axis.
pub proof fn lemma_index_at_zero(shape: Seq<usize>)
    ensures
        index_count(shape) >= 1,
        index_at(shape, 0) == zero_index(shape.len()),
{
    if !has_zero(shape) {
        lemma_product_positive(shape);
        let zeros = zero_index(shape.len());
        assert(in_bounds(zeros, shape));
        lemma_ravel_zero(shape);
        lemma_unravel_ravel(zeros, shape);
    }
}

/// Advances `index` to the next multi-index into `shape` in row-major
/// order: the last axis is incremented, and an axis that reaches its size
/// falls back to zero and carries into the axis before it. After the last
/// multi-index the result is `Done` and `index` is back at zero.
pub fn update_index_row_major(index: &mut Vec<usize>, shape: &[usize]) -> (r: UpdaterResult)
    requires
        in_bounds(old(index)@, shape@),
    ensures
        in_bounds(final(index)@, shape@),
        match r {
            UpdaterResult::NotDone => {
                &&& ravel(old(index)@, shape@) + 1 < product(shape@)
                &&& final(index)@ == unravel(ravel(old(index)@, shape@) + 1, shape@)
            },
            UpdaterResult::Done => {
                &&& ravel(old(index)@, shape@) + 1 == product(shape@)
                &&& final(index)@ == zero_index(shape@.len())
            },
        },
{
    let ndim = shape.len();
    let mut axis: usize = ndim;
    while axis > 0
        invariant
            ndim == shape@.len(),
            index@.len() == ndim,
            0 <= axis <= ndim,
            in_bounds(old(index)@, shape@),
            forall|i: int| 0 <= i < axis ==> index@[i] == old(index)@[i],
            forall|i: int| axis <= i < ndim ==> old(index)@[i] + 1 == shape@[i],
            forall|i: int| axis <= i < ndim ==> index@[i] == 0,
        decreases axis,
    {
        axis -= 1;
        let next = index[axis] + 1;
        if next == shape[axis] {
            index[axis] = 0;
        } else {
            index[axis] = next;
            proof {
                lemma_ravel_step(old(index)@, index@, shape@, axis as int);
                lemma_ravel_bound(index@, shape@);
                lemma_unravel_ravel(index@, shape@);
            }
            return UpdaterResult::NotDone;
        }
    }
    proof {
        lemma_ravel_last(old(index)@, shape@);
        assert(index@ =~= zero_index(shape@.len()));
    }
    UpdaterResult::Done
}

/// An iteration over the multi-indices of a shape.
///
/// It yields `index_count(shape)` multi-indices, `index_at(shape, k)` at
/// position `k`, and after them nothing, however often it is asked.
pub struct IndexIteration<'a> {
    shape: &'a [usize],
    index: Vec<usize>,
    state: IndexState,
}

impl<'a> IndexIteration<'a> {
    /// What holds of every iteration that this module hands out: the
    /// multi-index it keeps has the rank of the shape and lies in bounds.
    pub closed spec fn wf(&self) -> bool {
        &&& self.index@.len() == self.shape@.len()
        &&& self.state is NotStarted ==> self.index@ == zero_index(self.shape@.len())
        &&& self.state is InProgress ==> if has_zero(self.shape@) {
            self.index@ == zero_index(self.shape@.len())
        } else {
            in_bounds(self.index@, self.shape@)
        }
    }

    /// The shape whose multi-indices are walked.
    pub closed spec fn shape(&self) -> Seq<usize> {
        self.shape@
    }

    /// The position of the multi-index that the next call of `next`
    /// yields, or `None` once the iteration is exhausted.
    pub closed spec fn upcoming(&self) -> Option<nat> {
        match self.state {
            IndexState::NotStarted => Some(0nat),
            IndexState::InProgress => if !has_zero(self.shape@) && ravel(self.index@, self.shape@)
                + 1 < product(self.shape@) {
                Some(ravel(self.index@, self.shape@) + 1)
            } else {
                None
            },
            IndexState::Finished => None,
        }
    }

    /// An iteration over `shape` that has not yielded anything yet.
    pub fn new(shape: &'a [usize]) -> (it: Self)
        ensures
            it.wf(),
            it.shape() == shape@,
            it.upcoming() == Some(0nat),
    {
        let mut index: Vec<usize> = Vec::new();
        let mut i: usize = 0;
        while i < shape.len()
            invariant
                0 <= i <= shape@.len(),
                index@.len() == i,
                forall|j: int| 0 <= j < i ==> index@[j] == 0,
            decreases shape@.len() - i,
        {
            index.push(0);
            i += 1;
        }
        assert(index@ =~= zero_index(shape@.len()));
        IndexIteration { shape, index, state: IndexState::NotStarted }
    }

    /// An iteration over `shape` in row-major order, the last axis running
    /// fastest.
    pub fn row_major(shape: &'a [usize]) -> (it: Self)
        ensures
            it.wf(),
            it.shape() == shape@,
            it.upcoming() == Some(0nat),
    {
        Self::new(shape)
    }

    /// The next multi-index, or `None` once all have been yielded.
    pub fn next<'b>(&'b mut self) -> (r: Option<&'b [usize]>)
        requires
            old(self).wf(),
        ensures
            final(self).wf(),
            final(self).shape() == old(self).shape(),
            match old(self).upcoming() {
                Some(k) => {
                    &&& k < index_count(old(self).shape())
                    &&& r is Some
                    &&& r->Some_0@ == index_at(old(self).shape(), k)
                    &&& final(self).upcoming() == if k + 1 < index_count(old(self).shape()) {
                        Some(k + 1)
                    } else {
                        None
                    }
                },
                None => r is None && final(self).upcoming() is None,
            },
    {
        match self.state {
            IndexState::NotStarted => {
                proof {
                    lemma_index_at_zero(self.shape@);
                    if !has_zero(self.shape@) {
                        lemma_ravel_zero(self.shape@);
                    }
                }
                self.state = IndexState::InProgress;
                Some(self.index.as_slice())
            },
            IndexState::InProgress => {
                if contains_zero(self.shape) {
                    self.state = IndexState::Finished;
                    None
                } else {
                    let ghost before = self.index@;
                    match update_index_row_major(&mut self.index, self.shape) {
                        UpdaterResult::NotDone => {
                            proof {
                                lemma_unravel(ravel(before, self.shape@) + 1, self.shape@);
                            }
                            Some(self.index.as_slice())
                        },
                        UpdaterResult::Done => {
                            self.state = IndexState::Finished;
                            None
                        },
                    }
                }
            },
            IndexState::Finished => None,
        }
    }
}

/// Whether some axis of `shape` has size zero.
pub fn contains_zero(shape: &[usize]) -> (r: bool)
    ensures
        r == has_zero(shape@),
{
    let mut i: usize = 0;
    while i < shape.len()
        invariant
            0 <= i <= shape@.len(),
            forall|j: int| 0 <= j < i ==> shape@[j] != 0,
        decreases shape@.len() - i,
    {
        if shape[i] == 0 {
            return true;
        }
        i += 1;
    }
    false
}

} // verus!
