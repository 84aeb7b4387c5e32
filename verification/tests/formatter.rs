use mathoxide::array::Array;
use mathoxide::error::{ArrayError, IndexFault, ShapeDifference, ShapeError, StorageError};
use mathoxide::formatter::{bracketed_list, layout, render_cells, ArrayFormatter, VerboseFormatter};
use mathoxide::thread_safe_storage::ThreadSafeStorage;
use mathoxide::thread_unsafe_storage::ThreadUnsafeStorage;
use mathoxide::views::ContiguousView;

#[test]
fn check_2d_nrows_format() {
    let array = Array::<ThreadSafeStorage<u32>, ContiguousView>::zeros(&[4, 5]).unwrap();
    let formatted = array.to_string();
    assert_eq!(formatted.split('\n').count(), array.shape()[0]);
}

#[test]
fn format_of_a_table() {
    let mut array = Array::<ThreadUnsafeStorage<i32>, ContiguousView>::zeros(&[2, 3]).unwrap();
    for i in 0..6 {
        array.storage_mut().get_mut().unwrap()[i] = i as i32 - 2;
    }
    assert_eq!(array.to_string(), "[[-2,-1,0]\n [1,2,3]]");
    let column = array.reshape(&[-1isize, 1]).unwrap();
    assert_eq!(column.to_string(), "[[-2]\n [-1]\n [0]\n [1]\n [2]\n [3]]");
    let row = array.reshape(&[1isize, -1]).unwrap();
    assert_eq!(row.to_string(), "[[-2,-1,0,1,2,3]]");
}

#[test]
fn format_of_other_ranks_is_flat() {
    let mut array = Array::<ThreadUnsafeStorage<u8>, ContiguousView>::zeros(&[2, 1, 2]).unwrap();
    for i in 0..4 {
        array.storage_mut().get_mut().unwrap()[i] = 10 + i as u8;
    }
    assert_eq!(array.to_string(), "[10,11,12,13]");
    assert_eq!(array.reshape(&[4usize]).unwrap().to_string(), "[10,11,12,13]");
    assert_eq!(array.get(&[1, 0, 0]).unwrap().to_string(), "[12]");
}

#[test]
fn format_of_empty_arrays() {
    let flat = Array::<ThreadUnsafeStorage<u8>, ContiguousView>::zeros(&[0]).unwrap();
    assert_eq!(flat.to_string(), "[]");
    let no_rows = Array::<ThreadUnsafeStorage<u8>, ContiguousView>::zeros(&[0, 3]).unwrap();
    assert_eq!(no_rows.to_string(), "");
    let no_columns = Array::<ThreadUnsafeStorage<u8>, ContiguousView>::zeros(&[2, 0]).unwrap();
    assert_eq!(no_columns.to_string(), "[[]\n []]");
}

#[test]
fn format_says_when_the_storage_is_being_written() {
    let array = Array::<ThreadUnsafeStorage<u8>, ContiguousView>::zeros(&[2]).unwrap();
    let mut other = array.reshape(&[2usize]).unwrap();
    let guard = other.storage_mut().get_mut().unwrap();
    assert_eq!(array.to_string(), "error while formatting array: Array is borrowed immutable");
    drop(guard);
    assert_eq!(array.to_string(), "[0,0]");
}

#[test]
fn formatter_reads_along_the_view() {
    let buffer = [7u16, 1, 2, 3, 4, 8];
    let view = ContiguousView::new_with_offset(&[2, 2], 1);
    let formatter = VerboseFormatter::new(&buffer, &view);
    assert_eq!(formatter.format(), Ok("[[1,2]\n [3,4]]".to_string()));
    assert_eq!(
        render_cells(&buffer, &view),
        Ok(vec!["1".to_string(), "2".to_string(), "3".to_string(), "4".to_string()])
    );
}

#[test]
fn formatter_rejects_a_buffer_too_short() {
    let buffer = [7u16, 1, 2, 3];
    let view = ContiguousView::new_with_offset(&[2, 2], 1);
    let formatter = VerboseFormatter::new(&buffer, &view);
    assert_eq!(formatter.format(), Err(ArrayError::StorageError(StorageError::TooShort)));
}

#[test]
fn layout_of_given_cells() {
    let cells = vec!["a".to_string(), "bc".to_string(), "".to_string(), "d".to_string()];
    assert_eq!(layout(&cells, &[4]), "[a,bc,,d]");
    assert_eq!(layout(&cells, &[2, 2]), "[[a,bc]\n [,d]]");
    assert_eq!(layout(&cells, &[1, 2, 2]), "[a,bc,,d]");
    assert_eq!(bracketed_list(&cells, 1, 3), "[bc,]");
    assert_eq!(bracketed_list(&cells, 2, 2), "[]");
}

#[test]
fn messages_name_the_failure() {
    assert_eq!(ShapeError::Empty.message(), "shape cannot be empty");
    assert_eq!(ShapeError::MultipleInferred.message(), "only one dimension can be inferred");
    assert_eq!(
        ShapeError::AmbiguousEmpty.message(),
        "unspecified dimension can be any value for tensor of size 0"
    );
    assert_eq!(
        ShapeError::ZeroAxis.message(),
        "shape with 0-dimensions is not valid for non-empty tensors"
    );
    assert_eq!(
        ShapeError::NotDivisible { numel: 7 }.message(),
        "cannot infer shape with 7 elements"
    );
    assert_eq!(
        ShapeError::SizeMismatch { numel: 20 }.message(),
        "not a valid shape for array of size 20"
    );
    assert_eq!(ShapeError::TooLarge.message(), "shape does not fit in usize");
    assert_eq!(StorageError::BorrowedMutably.message(), "Array is borrowed immutable");
    assert_eq!(StorageError::AlreadyBorrowed.message(), "Array is already borrowed");
    assert_eq!(StorageError::Poisoned.message(), "Mutex was poisoned");
    assert_eq!(StorageError::TooShort.message(), "storage is shorter than the view requires");
    assert_eq!(
        ArrayError::InvalidShape(ShapeError::NotDivisible { numel: 7 }).message(),
        "cannot infer shape with 7 elements"
    );
    assert_eq!(
        ArrayError::IndexError(IndexFault::Rank { index: 1, view: 2 }).message(),
        "index of rank 1 is not valid for a view of rank 2"
    );
    assert_eq!(
        ArrayError::IndexError(IndexFault::Bound { axis: 1, component: 5, size: 3 }).message(),
        "index 5 on axis 1 is not valid for a view of size 3 on that axis"
    );
    assert_eq!(
        ArrayError::ShapeMismatch(ShapeDifference::Rank { lhs: 1, rhs: 2 }).message(),
        "can't add arrays of different dimentionality: rank 1 and rank 2"
    );
    assert_eq!(
        ArrayError::ShapeMismatch(ShapeDifference::Axis { axis: 0, lhs: 4, rhs: 7 }).message(),
        "can't add arrays of different dimentionality: size 4 and size 7 on axis 0"
    );
    assert_eq!(
        ArrayError::StorageError(StorageError::Poisoned).message(),
        "Mutex was poisoned"
    );
    assert_eq!(
        ArrayError::SizeError { numel: 20 }.message(),
        "'item()' can only be run on arrays of size 1, not of size 20"
    );
    assert_eq!(ArrayError::Overflow.message(), "sum does not fit in the element type");
}
