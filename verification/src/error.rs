//! The failures that the library reports.

use vstd::prelude::*;
use vstd::string::{to_string_from_display_ensures, StringExecFns};

verus! {

/// Why a requested shape was rejected.
#[derive(Clone, Copy, Debug, PartialEq, Eq, Structural)]
pub enum ShapeError {
    /// The request names no axis at all.
    Empty,
    /// More than one axis was left to be inferred.
    MultipleInferred,
    /// An axis is to be inferred beside a known axis of size zero, and the
    /// array is empty: every size would do.
    AmbiguousEmpty,
    /// An axis is to be inferred beside a known axis of size zero, but the
    /// array is not empty.
    ZeroAxis,
    /// The known axes do not divide the element count.
    NotDivisible { numel: usize },
    /// The shape asks for another number of elements than the array holds.
    SizeMismatch { numel: usize },
    /// The shape, or one of its strides, does not fit in `usize`.
    TooLarge,
}

/// Why a storage did not grant access.
#[derive(Clone, Copy, Debug, PartialEq, Eq, Structural)]
pub enum StorageError {
    /// A write guard on the buffer is live, so it cannot be read.
    BorrowedMutably,
    /// Another guard on the buffer is live, so it cannot be written.
    AlreadyBorrowed,
    /// A holder of the lock panicked while it held it.
    Poisoned,
    /// The buffer is shorter than the view laid over it.
    TooShort,
}

/// What is wrong with a multi-index, as far as the first fault goes.
#[derive(Clone, Copy, Debug, PartialEq, Eq, Structural)]
pub enum IndexFault {
    /// The index has `index` components, the view `view` axes.
    Rank { index: usize, view: usize },
    /// On axis `axis`, the first of its kind, the index has the component
    /// `component`, which is not below the size `size` of the axis.
    Bound { axis: usize, component: usize, size: usize },
}

/// Where two shapes differ, as far as the first difference goes.
#[derive(Clone, Copy, Debug, PartialEq, Eq, Structural)]
pub enum ShapeDifference {
    /// The one shape has `lhs` axes, the other `rhs`.
    Rank { lhs: usize, rhs: usize },
    /// On axis `axis`, the first of its kind, the one shape has the size
    /// `lhs`, the other the size `rhs`.
    Axis { axis: usize, lhs: usize, rhs: usize },
}

/// The failures of array operations.
#[derive(Clone, Copy, Debug, PartialEq, Eq, Structural)]
pub enum ArrayError {
    /// A shape request that cannot be honoured.
    InvalidShape(ShapeError),
    /// A multi-index of the wrong rank, or with a component out of range.
    IndexError(IndexFault),
    /// The operands of a binary operation differ in shape.
    ShapeMismatch(ShapeDifference),
    /// The storage did not grant access.
    StorageError(StorageError),
    /// A single element was asked of an array that holds `numel` elements,
    /// not exactly one.
    SizeError { numel: usize },
    /// An elementwise result does not fit in the element type.
    Overflow,
}

/// Whether `text` is the number `n` as `usize` displays it.
pub open spec fn shown(n: usize, text: Seq<char>) -> bool {
    exists|digits: String| #[trigger]
        to_string_from_display_ensures::<usize>(&n, digits) && digits@ == text
}

/// The number `n` as `usize` displays it.
fn number(n: usize) -> (digits: String)
    ensures
        shown(n, digits@),
{
    n.to_string()
}

impl IndexFault {
    /// Whether this is the first fault of `idx` as a multi-index into
    /// `shape`: another rank, or else the first component that is not
    /// below the size of its axis.
    pub open spec fn found_in(&self, idx: Seq<usize>, shape: Seq<usize>) -> bool {
        match *self {
            IndexFault::Rank { index, view } => {
                &&& index == idx.len()
                &&& view == shape.len()
                &&& idx.len() != shape.len()
            },
            IndexFault::Bound { axis, component, size } => {
                &&& idx.len() == shape.len()
                &&& axis < idx.len()
                &&& component == idx[axis as int]
                &&& size == shape[axis as int]
                &&& component >= size
                &&& forall|j: int| 0 <= j < axis ==> idx[j] < shape[j]
            },
        }
    }

    /// Whether `text` puts the fault in words, with its numbers as `usize`
    /// displays them.
    pub open spec fn worded(&self, text: Seq<char>) -> bool {
        match *self {
            IndexFault::Rank { index, view } => exists|a: Seq<char>, b: Seq<char>|
                {
                    &&& #[trigger] shown(index, a)
                    &&& #[trigger] shown(view, b)
                    &&& text == "index of rank "@ + a + " is not valid for a view of rank "@ + b
                },
            IndexFault::Bound { axis, component, size } => exists|
                a: Seq<char>,
                b: Seq<char>,
                c: Seq<char>,
            |
                {
                    &&& #[trigger] shown(component, a)
                    &&& #[trigger] shown(axis, b)
                    &&& #[trigger] shown(size, c)
                    &&& text == "index "@ + a + " on axis "@ + b
                        + " is not valid for a view of size "@ + c + " on that axis"@
                },
        }
    }

    /// The fault in words.
    pub fn message(&self) -> (text: String)
        ensures
            self.worded(text@),
    {
        match *self {
            IndexFault::Rank { index, view } => {
                let a = number(index);
                let b = number(view);
                let mut text = "index of rank ".to_owned();
                text.append(a.as_str());
                text.append(" is not valid for a view of rank ");
                text.append(b.as_str());
                assert(shown(index, a@) && shown(view, b@));
                text
            },
            IndexFault::Bound { axis, component, size } => {
                let a = number(component);
                let b = number(axis);
                let c = number(size);
                let mut text = "index ".to_owned();
                text.append(a.as_str());
                text.append(" on axis ");
                text.append(b.as_str());
                text.append(" is not valid for a view of size ");
                text.append(c.as_str());
                text.append(" on that axis");
                assert(shown(component, a@) && shown(axis, b@) && shown(size, c@));
                text
            },
        }
    }
}

impl ShapeDifference {
    /// Whether this is the first difference of the shapes `lhs` and `rhs`:
    /// another rank, or else the first axis on which the sizes differ.
    pub open spec fn found_in(&self, lhs: Seq<usize>, rhs: Seq<usize>) -> bool {
        match *self {
            ShapeDifference::Rank { lhs: l, rhs: r } => {
                &&& l == lhs.len()
                &&& r == rhs.len()
                &&& lhs.len() != rhs.len()
            },
            ShapeDifference::Axis { axis, lhs: l, rhs: r } => {
                &&& lhs.len() == rhs.len()
                &&& axis < lhs.len()
                &&& l == lhs[axis as int]
                &&& r == rhs[axis as int]
                &&& l != r
                &&& forall|j: int| 0 <= j < axis ==> lhs[j] == rhs[j]
            },
        }
    }

    /// Whether `text` puts the difference in words, with its numbers as
    /// `usize` displays them.
    pub open spec fn worded(&self, text: Seq<char>) -> bool {
        match *self {
            ShapeDifference::Rank { lhs, rhs } => exists|a: Seq<char>, b: Seq<char>|
                {
                    &&& #[trigger] shown(lhs, a)
                    &&& #[trigger] shown(rhs, b)
                    &&& text == "can't add arrays of different dimentionality: rank "@ + a
                        + " and rank "@ + b
                },
            ShapeDifference::Axis { axis, lhs, rhs } => exists|
                a: Seq<char>,
                b: Seq<char>,
                c: Seq<char>,
            |
                {
                    &&& #[trigger] shown(lhs, a)
                    &&& #[trigger] shown(rhs, b)
                    &&& #[trigger] shown(axis, c)
                    &&& text == "can't add arrays of different dimentionality: size "@ + a
                        + " and size "@ + b + " on axis "@ + c
                },
        }
    }

    /// The difference in words.
    pub fn message(&self) -> (text: String)
        ensures
            self.worded(text@),
    {
        match *self {
            ShapeDifference::Rank { lhs, rhs } => {
                let a = number(lhs);
                let b = number(rhs);
                let mut text = "can't add arrays of different dimentionality: rank ".to_owned();
                text.append(a.as_str());
                text.append(" and rank ");
                text.append(b.as_str());
                assert(shown(lhs, a@) && shown(rhs, b@));
                text
            },
            ShapeDifference::Axis { axis, lhs, rhs } => {
                let a = number(lhs);
                let b = number(rhs);
                let c = number(axis);
                let mut text = "can't add arrays of different dimentionality: size ".to_owned();
                text.append(a.as_str());
                text.append(" and size ");
                text.append(b.as_str());
                text.append(" on axis ");
                text.append(c.as_str());
                assert(shown(lhs, a@) && shown(rhs, b@) && shown(axis, c@));
                text
            },
        }
    }
}


impl ShapeError {
    /// Whether `text` puts the failure in words: a fixed sentence, with the
    /// element count, as `usize` displays it, where the failure has one.
    pub open spec fn worded(&self, text: Seq<char>) -> bool {
        match *self {
            ShapeError::Empty => text == "shape cannot be empty"@,
            ShapeError::MultipleInferred => text == "only one dimension can be inferred"@,
            ShapeError::AmbiguousEmpty => text
                == "unspecified dimension can be any value for tensor of size 0"@,
            ShapeError::ZeroAxis => text
                == "shape with 0-dimensions is not valid for non-empty tensors"@,
            ShapeError::NotDivisible { numel } => exists|count: String|
                {
                    &&& #[trigger] to_string_from_display_ensures::<usize>(&numel, count)
                    &&& text == "cannot infer shape with "@ + count@ + " elements"@
                },
            ShapeError::SizeMismatch { numel } => exists|count: String|
                {
                    &&& #[trigger] to_string_from_display_ensures::<usize>(&numel, count)
                    &&& text == "not a valid shape for array of size "@ + count@
                },
            ShapeError::TooLarge => text == "shape does not fit in usize"@,
        }
    }

    /// The failure in words, with the element count where it matters.
    pub fn message(&self) -> (text: String)
        ensures
            self.worded(text@),
    {
        match *self {
            ShapeError::Empty => "shape cannot be empty".to_owned(),
            ShapeError::MultipleInferred => "only one dimension can be inferred".to_owned(),
            ShapeError::AmbiguousEmpty => {
                "unspecified dimension can be any value for tensor of size 0".to_owned()
            },
            ShapeError::ZeroAxis => {
                "shape with 0-dimensions is not valid for non-empty tensors".to_owned()
            },
            ShapeError::NotDivisible { numel } => {
                let count = numel.to_string();
                let mut text = "cannot infer shape with ".to_owned();
                text.append(count.as_str());
                text.append(" elements");
                text
            },
            ShapeError::SizeMismatch { numel } => {
                let count = numel.to_string();
                let mut text = "not a valid shape for array of size ".to_owned();
                text.append(count.as_str());
                text
            },
            ShapeError::TooLarge => "shape does not fit in usize".to_owned(),
        }
    }
}

/// What a storage makes of the outcome of a call that grants or refuses
/// access: the guard where access was granted, and `refusal` where it was
/// not.
pub open spec fn granted<Guard, Refused>(
    outcome: Result<Guard, Refused>,
    refusal: StorageError,
) -> Result<Guard, StorageError> {
    match outcome {
        Ok(guard) => Ok(guard),
        Err(_) => Err(refusal),
    }
}

/// The guard of an outcome that granted access, and `refusal` for one that
/// did not.
pub fn access<Guard, Refused>(outcome: Result<Guard, Refused>, refusal: StorageError) -> (r: Result<
    Guard,
    StorageError,
>)
    ensures
        r == granted(outcome, refusal),
{
    match outcome {
        Ok(guard) => Ok(guard),
        Err(_) => Err(refusal),
    }
}

impl StorageError {
    /// The failure in words, as a value of specifications.
    pub open spec fn words(&self) -> Seq<char> {
        match *self {
            StorageError::BorrowedMutably => "Array is borrowed immutable"@,
            StorageError::AlreadyBorrowed => "Array is already borrowed"@,
            StorageError::Poisoned => "Mutex was poisoned"@,
            StorageError::TooShort => "storage is shorter than the view requires"@,
        }
    }

    /// The failure in words.
    pub fn message(&self) -> (text: String)
        ensures
            text@ == self.words(),
    {
        match *self {
            StorageError::BorrowedMutably => "Array is borrowed immutable".to_owned(),
            StorageError::AlreadyBorrowed => "Array is already borrowed".to_owned(),
            StorageError::Poisoned => "Mutex was poisoned".to_owned(),
            StorageError::TooShort => "storage is shorter than the view requires".to_owned(),
        }
    }
}

impl ArrayError {
    /// Whether `text` puts the failure in words, with the offending index,
    /// sizes and counts as `usize` displays them: for a shape, index or
    /// storage failure, in the words of that failure.
    pub open spec fn worded(&self, text: Seq<char>) -> bool {
        match *self {
            ArrayError::InvalidShape(e) => e.worded(text),
            ArrayError::IndexError(fault) => fault.worded(text),
            ArrayError::ShapeMismatch(difference) => difference.worded(text),
            ArrayError::StorageError(e) => text == e.words(),
            ArrayError::SizeError { numel } => exists|count: Seq<char>|
                {
                    &&& #[trigger] shown(numel, count)
                    &&& text == "'item()' can only be run on arrays of size 1, not of size "@
                        + count
                },
            ArrayError::Overflow => text == "sum does not fit in the element type"@,
        }
    }

    /// The failure in words.
    pub fn message(&self) -> (text: String)
        ensures
            self.worded(text@),
    {
        match *self {
            ArrayError::InvalidShape(e) => e.message(),
            ArrayError::IndexError(fault) => fault.message(),
            ArrayError::ShapeMismatch(difference) => difference.message(),
            ArrayError::StorageError(e) => e.message(),
            ArrayError::SizeError { numel } => {
                let count = number(numel);
                let mut text =
                    "'item()' can only be run on arrays of size 1, not of size ".to_owned();
                text.append(count.as_str());
                assert(shown(numel, count@));
                text
            },
            ArrayError::Overflow => "sum does not fit in the element type".to_owned(),
        }
    }
}

} // verus!
