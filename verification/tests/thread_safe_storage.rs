use mathoxide::thread_safe_storage::ThreadSafeStorage;

#[test]
fn thread_safe_storage_it_works() {
    let v = vec![1, 2, 3, 4];
    let v1 = ThreadSafeStorage::new(v);
    let v2 = v1.clone();

    assert_eq!(v1.get().unwrap()[2], 3);
    assert_eq!(v2.get().unwrap()[2], 3);
}

#[test]
fn thread_safe_storage_it_works_with_mut() {
    let v = vec![1, 2, 3, 4];
    let mut v1 = ThreadSafeStorage::new(v);
    let mut v2 = v1.clone();

    v2.get_mut().unwrap().as_mut_slice()[3] = 20;
    v1.get_mut().unwrap().as_mut_slice()[3] = 13;

    let r = v1.get_mut().unwrap();
    assert_eq!(r[3], 13);
}

#[test]
fn thread_safe_storage_size_works() {
    let v = vec![1, 2, 3, 4];
    let v = ThreadSafeStorage::new(v);

    assert_eq!(v.len().unwrap(), 4);
}

#[test]
fn thread_safe_storage_write_is_seen_through_a_clone() {
    let mut v1 = ThreadSafeStorage::new(vec![1, 2, 3, 4]);
    let v2 = v1.clone();
    v1.get_mut().unwrap().as_mut_slice()[0] = 7;
    assert_eq!(v2.get().unwrap().as_slice(), &[7, 2, 3, 4]);
    assert_eq!(v1.get_mut().unwrap().as_slice(), &[7, 2, 3, 4]);
}
