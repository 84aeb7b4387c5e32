use mathoxide::error::StorageError;
use mathoxide::thread_unsafe_storage::ThreadUnsafeStorage;

#[test]
fn thread_unsafe_storage_it_works() {
    let v = vec![1, 2, 3, 4];
    let v1 = ThreadUnsafeStorage::new(v);
    let v2 = v1.clone();

    assert_eq!(v1.get().unwrap()[2], 3);
    assert_eq!(v2.get().unwrap()[2], 3);
}

#[test]
fn thread_unsafe_storage_it_works_with_mut() {
    let v = vec![1, 2, 3, 4];
    let mut v1 = ThreadUnsafeStorage::new(v);
    let mut v2 = v1.clone();

    v2.get_mut().unwrap()[3] = 20;
    v1.get_mut().unwrap()[3] = 13;

    let r = v1.get().unwrap()[3];
    assert_eq!(r, 13);
}

#[test]
fn thread_unsafe_storage_size_works() {
    let v = vec![1, 2, 3, 4];
    let v = ThreadUnsafeStorage::new(v);

    assert_eq!(v.len().unwrap(), 4);
}

#[test]
fn thread_unsafe_storage_borrow_conflict() {
    let v1 = ThreadUnsafeStorage::new(vec![1, 2, 3, 4]);
    let mut v2 = v1.clone();
    let read = v1.get().unwrap();
    assert!(matches!(v2.get_mut(), Err(StorageError::AlreadyBorrowed)));
    drop(read);
    let write = v2.get_mut().unwrap();
    assert!(matches!(v1.get(), Err(StorageError::BorrowedMutably)));
    assert!(matches!(v1.len(), Err(StorageError::BorrowedMutably)));
    drop(write);
    assert_eq!(v1.len(), Ok(4));
}
