use mathoxide::array::Array;
use mathoxide::error::{ArrayError, IndexFault, ShapeError};
use mathoxide::thread_safe_storage::ThreadSafeStorage;
use mathoxide::thread_unsafe_storage::ThreadUnsafeStorage;
use mathoxide::views::ContiguousView;

#[test]
fn check_all_zeros() {
    let array = Array::<ThreadSafeStorage<u32>, ContiguousView>::zeros(&[4, 5]).unwrap();
    let array = array.reshape(&[-1isize]).unwrap();
    for i in 0..20 {
        assert_eq!(array.get(&[i]).unwrap().item().unwrap(), 0);
    }
}

#[test]
fn item_panic() {
    let array = Array::<ThreadSafeStorage<u32>, ContiguousView>::zeros(&[4, 5]).unwrap();
    let result = array.item();
    assert!(result.is_err());
    assert_eq!(result, Err(ArrayError::SizeError { numel: 20 }));
}

#[test]
fn reshape_2d_to_1d() {
    let array = Array::<ThreadSafeStorage<u32>, ContiguousView>::zeros(&[2, 3]).unwrap();
    let row_vec = array.reshape(&[6usize]).unwrap();
    assert_eq!(row_vec.shape(), &[6]);
}

#[test]
fn reshape_2d_to_1d_inferred() {
    let array = Array::<ThreadSafeStorage<u32>, ContiguousView>::zeros(&[2, 3]).unwrap();
    let row_vec = array.reshape(&[-1isize]).unwrap();
    assert_eq!(row_vec.shape(), &[6]);
}

#[test]
fn zeros_has_the_shape_asked_for() {
    let array = Array::<ThreadUnsafeStorage<i64>, ContiguousView>::zeros(&[2, 3, 4]).unwrap();
    assert_eq!(array.shape(), &[2, 3, 4]);
    assert_eq!(array.stride(), &[12, 4, 1]);
    assert_eq!(array.ndim(), 3);
    assert_eq!(array.numel(), 24);
    assert_eq!(array.storage_offset(), 0);
    assert!(array.is_contiguous());
    assert_eq!(array.storage_size(), Ok(24));
    for i in 0..2 {
        for j in 0..3 {
            for k in 0..4 {
                assert_eq!(array.get(&[i, j, k]).unwrap().item(), Ok(0));
            }
        }
    }
}

#[test]
fn zeros_rejects_a_shape_too_large() {
    let result = Array::<ThreadUnsafeStorage<u8>, ContiguousView>::zeros(&[usize::MAX, 2]);
    assert!(matches!(result, Err(ArrayError::InvalidShape(ShapeError::TooLarge))));
    let result = Array::<ThreadUnsafeStorage<u8>, ContiguousView>::zeros(&[0, usize::MAX, 2]);
    assert!(matches!(result, Err(ArrayError::InvalidShape(ShapeError::TooLarge))));
}

#[test]
fn zeros_with_a_zero_axis_holds_nothing() {
    let array = Array::<ThreadUnsafeStorage<u8>, ContiguousView>::zeros(&[3, 0]).unwrap();
    assert_eq!(array.numel(), 0);
    assert_eq!(array.storage_size(), Ok(0));
    assert!(matches!(
        array.get(&[0, 0]),
        Err(ArrayError::IndexError(IndexFault::Bound { axis: 1, component: 0, size: 0 }))
    ));
    assert_eq!(array.item(), Err(ArrayError::SizeError { numel: 0 }));
}

#[test]
fn reshape_with_rows_inferred() {
    let array = Array::<ThreadUnsafeStorage<u32>, ContiguousView>::zeros(&[4, 5]).unwrap();
    let rows = array.reshape(&[-1isize, 2]).unwrap();
    assert_eq!(rows.shape(), &[10, 2]);
    assert_eq!(rows.stride(), &[2, 1]);
    assert_eq!(rows.numel(), 20);
}

#[test]
fn reshape_rejects_two_inferred_axes() {
    let array = Array::<ThreadUnsafeStorage<u32>, ContiguousView>::zeros(&[4, 5]).unwrap();
    let result = array.reshape(&[-1isize, -1]);
    assert!(matches!(result, Err(ArrayError::InvalidShape(ShapeError::MultipleInferred))));
}

#[test]
fn reshape_rejects_another_element_count() {
    let array = Array::<ThreadUnsafeStorage<u32>, ContiguousView>::zeros(&[4, 5]).unwrap();
    let result = array.reshape(&[3usize, 7]);
    assert!(
        matches!(result, Err(ArrayError::InvalidShape(ShapeError::SizeMismatch { numel: 20 })))
    );
    let result = array.reshape(&[-1isize, 3]);
    assert!(
        matches!(result, Err(ArrayError::InvalidShape(ShapeError::NotDivisible { numel: 20 })))
    );
    let result = array.reshape::<usize>(&[]);
    assert!(matches!(result, Err(ArrayError::InvalidShape(ShapeError::Empty))));
}

#[test]
fn reshape_round_trip_reads_the_same_elements() {
    let mut array = Array::<ThreadUnsafeStorage<u32>, ContiguousView>::zeros(&[4, 6]).unwrap();
    for i in 0..24 {
        array.storage_mut().get_mut().unwrap()[i] = 100 + i as u32;
    }
    let direct = array.reshape(&[24usize]).unwrap();
    let detour = array.reshape(&[2usize, 3, 4]).unwrap().reshape(&[-1isize]).unwrap();
    assert_eq!(direct.shape(), detour.shape());
    for i in 0..24 {
        assert_eq!(direct.get(&[i]).unwrap().item(), Ok(100 + i as u32));
        assert_eq!(detour.get(&[i]).unwrap().item(), Ok(100 + i as u32));
    }
}

#[test]
fn reshape_shares_the_storage() {
    let array = Array::<ThreadUnsafeStorage<u32>, ContiguousView>::zeros(&[2, 3]).unwrap();
    let mut flat = array.reshape(&[-1isize]).unwrap();
    flat.storage_mut().get_mut().unwrap()[5] = 9;
    assert_eq!(array.get(&[1, 2]).unwrap().item(), Ok(9));
    assert_eq!(array.get(&[1, 1]).unwrap().item(), Ok(0));
}

#[test]
fn get_keeps_the_offset_of_the_element() {
    let mut array = Array::<ThreadUnsafeStorage<u32>, ContiguousView>::zeros(&[2, 3]).unwrap();
    for i in 0..6 {
        array.storage_mut().get_mut().unwrap()[i] = i as u32;
    }
    let element = array.get(&[1, 1]).unwrap();
    assert_eq!(element.shape(), &[1]);
    assert_eq!(element.storage_offset(), 4);
    assert_eq!(element.numel(), 1);
    assert_eq!(element.item(), Ok(4));
    assert_eq!(element.get(&[0]).unwrap().item(), Ok(4));
}

#[test]
fn get_rejects_an_index_out_of_bounds() {
    let array = Array::<ThreadUnsafeStorage<u32>, ContiguousView>::zeros(&[2, 3]).unwrap();
    assert!(matches!(
        array.get(&[2, 0]),
        Err(ArrayError::IndexError(IndexFault::Bound { axis: 0, component: 2, size: 2 }))
    ));
    assert!(matches!(
        array.get(&[0, 3]),
        Err(ArrayError::IndexError(IndexFault::Bound { axis: 1, component: 3, size: 3 }))
    ));
    assert!(matches!(
        array.get(&[5, 7]),
        Err(ArrayError::IndexError(IndexFault::Bound { axis: 0, component: 5, size: 2 }))
    ));
    assert!(matches!(
        array.get(&[0]),
        Err(ArrayError::IndexError(IndexFault::Rank { index: 1, view: 2 }))
    ));
    assert!(matches!(
        array.get(&[0, 0, 0]),
        Err(ArrayError::IndexError(IndexFault::Rank { index: 3, view: 2 }))
    ));
}

#[test]
fn item_fails_while_the_buffer_is_written() {
    let array = Array::<ThreadUnsafeStorage<u32>, ContiguousView>::zeros(&[1]).unwrap();
    let mut other = array.reshape(&[1usize]).unwrap();
    let guard = other.storage_mut().get_mut().unwrap();
    assert!(matches!(array.item(), Err(ArrayError::StorageError(_))));
    drop(guard);
    assert_eq!(array.item(), Ok(0));
}
