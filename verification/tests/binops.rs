use mathoxide::array::binops::{accumulate, same_shape, shape_difference};
use mathoxide::views::fits_buffer;
use mathoxide::array::Array;
use mathoxide::error::{ArrayError, ShapeDifference, StorageError};
use mathoxide::storage::Storage;
use mathoxide::thread_safe_storage::ThreadSafeStorage;
use mathoxide::thread_unsafe_storage::ThreadUnsafeStorage;
use mathoxide::views::{ArrayView, ContiguousView};

#[test]
fn simple_addition() {
    let linear = Array::<ThreadUnsafeStorage<u64>, ContiguousView>::zeros(&[4, 5]).unwrap();
    let mut reshaped = linear.reshape(&[-1isize]).unwrap();
    for i in 0..20 {
        reshaped.storage_mut().storage_get_mut().unwrap().as_mut_slice()[i] = i as u64;
    }

    let mut ones = Array::<ThreadUnsafeStorage<u64>, ContiguousView>::zeros(&[4, 5]).unwrap();
    for i in 0..20 {
        ones.storage_mut().storage_get_mut().unwrap().as_mut_slice()[i] = 1 as u64;
    }

    let sum = (&linear + &ones).unwrap();
    let array = sum.reshape(&[-1isize]).unwrap();
    for i in 0..20 {
        assert_eq!(array.get(&[i]).unwrap().item().unwrap(), 1 + i as u64);
    }
    assert_eq!(sum.shape(), &[4, 5]);
}

#[test]
fn panic_on_different_shape() {
    let array1 = Array::<ThreadUnsafeStorage<u32>, ContiguousView>::zeros(&[4, 5]).unwrap();
    let array2 = Array::<ThreadUnsafeStorage<u32>, ContiguousView>::zeros(&[7, 5]).unwrap();
    let result = &array1 + &array2;
    assert!(result.is_err());
    assert!(matches!(
        result,
        Err(ArrayError::ShapeMismatch(ShapeDifference::Axis { axis: 0, lhs: 4, rhs: 7 }))
    ));
}

#[test]
fn addition_leaves_the_operands_as_they_were() {
    let mut a = Array::<ThreadUnsafeStorage<i32>, ContiguousView>::zeros(&[2, 2]).unwrap();
    let mut b = Array::<ThreadSafeStorage<i32>, ContiguousView>::zeros(&[2, 2]).unwrap();
    for i in 0..4 {
        a.storage_mut().storage_get_mut().unwrap().as_mut_slice()[i] = -(i as i32);
        b.storage_mut().storage_get_mut().unwrap().as_mut_slice()[i] = 10 * i as i32;
    }
    let sum = a.add(&b).unwrap();
    for i in 0..2 {
        for j in 0..2 {
            let k = (2 * i + j) as i32;
            assert_eq!(sum.get(&[i, j]).unwrap().item(), Ok(9 * k));
            assert_eq!(a.get(&[i, j]).unwrap().item(), Ok(-k));
            assert_eq!(b.get(&[i, j]).unwrap().item(), Ok(10 * k));
        }
    }
    assert_eq!(sum.storage_offset(), 0);
    assert!(sum.is_contiguous());
}

#[test]
fn addition_of_an_array_to_itself() {
    let mut a = Array::<ThreadSafeStorage<u8>, ContiguousView>::zeros(&[3]).unwrap();
    for i in 0..3 {
        a.storage_mut().storage_get_mut().unwrap().as_mut_slice()[i] = 1 + i as u8;
    }
    let twice = a.add(&a).unwrap();
    for i in 0..3 {
        assert_eq!(twice.get(&[i]).unwrap().item(), Ok(2 + 2 * i as u8));
    }
}

#[test]
fn addition_of_single_elements_at_an_offset() {
    let mut a = Array::<ThreadUnsafeStorage<u16>, ContiguousView>::zeros(&[2, 3]).unwrap();
    for i in 0..6 {
        a.storage_mut().storage_get_mut().unwrap().as_mut_slice()[i] = 1 + i as u16;
    }
    let x = a.get(&[0, 2]).unwrap();
    let y = a.get(&[1, 1]).unwrap();
    let sum = x.add(&y).unwrap();
    assert_eq!(sum.shape(), &[1]);
    assert_eq!(sum.storage_offset(), 0);
    assert_eq!(sum.item(), Ok(3 + 5));
}

#[test]
fn addition_reports_a_sum_that_does_not_fit() {
    let mut a = Array::<ThreadUnsafeStorage<u8>, ContiguousView>::zeros(&[2]).unwrap();
    let mut b = Array::<ThreadUnsafeStorage<u8>, ContiguousView>::zeros(&[2]).unwrap();
    a.storage_mut().storage_get_mut().unwrap().as_mut_slice()[1] = 200;
    b.storage_mut().storage_get_mut().unwrap().as_mut_slice()[1] = 56;
    assert!(matches!(a.add(&b), Err(ArrayError::Overflow)));
    b.storage_mut().storage_get_mut().unwrap().as_mut_slice()[1] = 55;
    assert_eq!(a.add(&b).unwrap().get(&[1]).unwrap().item(), Ok(255));
}

#[test]
fn addition_of_empty_arrays() {
    let a = Array::<ThreadUnsafeStorage<u8>, ContiguousView>::zeros(&[0, 4]).unwrap();
    let b = Array::<ThreadUnsafeStorage<u8>, ContiguousView>::zeros(&[0, 4]).unwrap();
    let sum = a.add(&b).unwrap();
    assert_eq!(sum.shape(), &[0, 4]);
    assert_eq!(sum.numel(), 0);
}

#[test]
fn addition_fails_while_an_operand_is_written() {
    let a = Array::<ThreadUnsafeStorage<u8>, ContiguousView>::zeros(&[2]).unwrap();
    let mut b = Array::<ThreadUnsafeStorage<u8>, ContiguousView>::zeros(&[2]).unwrap();
    let mut handle = b.storage_mut().clone();
    let guard = handle.storage_get_mut().unwrap();
    assert!(matches!(
        a.add(&b),
        Err(ArrayError::StorageError(StorageError::BorrowedMutably))
    ));
    drop(guard);
    assert!(a.add(&b).is_ok());
}

#[test]
fn accumulate_adds_along_the_view() {
    let view = ContiguousView::new_with_offset(&[2, 2], 1);
    let buffer = [9u32, 1, 2, 3, 4, 9];
    let sums = accumulate(vec![10, 20, 30, 40], &buffer, &view).unwrap();
    assert_eq!(sums, vec![11, 22, 33, 44]);
}

#[test]
fn accumulate_rejects_a_buffer_too_short() {
    let view = ContiguousView::new_with_offset(&[2, 2], 1);
    let buffer = [1u32, 2, 3, 4];
    assert_eq!(
        accumulate(vec![0, 0, 0, 0], &buffer, &view),
        Err(ArrayError::StorageError(StorageError::TooShort))
    );
    assert!(!fits_buffer(&view, 4));
    assert!(fits_buffer(&view, 5));
    assert!(fits_buffer(&ContiguousView::new(&[3, 0]), 0));
}

#[test]
fn accumulate_rejects_a_sum_too_large() {
    let view = ContiguousView::new(&[2]);
    let buffer = [1i8, 1];
    assert_eq!(accumulate(vec![126, 127], &buffer, &view), Err(ArrayError::Overflow));
    assert_eq!(accumulate(vec![126, 126], &buffer, &view), Ok(vec![127, 127]));
    let buffer = [-1i8, -1];
    assert_eq!(accumulate(vec![-128, 0], &buffer, &view), Err(ArrayError::Overflow));
}

#[test]
fn same_shape_compares_rank_and_sizes() {
    assert!(same_shape(&[4, 5], &[4, 5]));
    assert!(!same_shape(&[4, 5], &[7, 5]));
    assert!(!same_shape(&[4, 5], &[4, 5, 1]));
    assert!(same_shape(&[], &[]));
    assert_eq!(shape_difference(&[4, 5], &[4, 5]), None);
    assert_eq!(
        shape_difference(&[4, 5], &[4, 6]),
        Some(ShapeDifference::Axis { axis: 1, lhs: 5, rhs: 6 })
    );
    assert_eq!(
        shape_difference(&[4, 5], &[7, 6]),
        Some(ShapeDifference::Axis { axis: 0, lhs: 4, rhs: 7 })
    );
    assert_eq!(
        shape_difference(&[4, 5], &[4, 5, 1]),
        Some(ShapeDifference::Rank { lhs: 2, rhs: 3 })
    );
    assert_eq!(ContiguousView::new(&[4, 5]).shape(), &[4, 5]);
}

#[test]
fn addition_of_arrays_of_other_rank_names_the_ranks() {
    let a = Array::<ThreadUnsafeStorage<u8>, ContiguousView>::zeros(&[4]).unwrap();
    let b = Array::<ThreadUnsafeStorage<u8>, ContiguousView>::zeros(&[2, 2]).unwrap();
    assert!(matches!(
        a.add(&b),
        Err(ArrayError::ShapeMismatch(ShapeDifference::Rank { lhs: 1, rhs: 2 }))
    ));
}
