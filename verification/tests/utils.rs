use mathoxide::utils::{contains_zero, update_index_row_major, IndexIteration, UpdaterResult};

#[test]
fn update_by_column_simple_test() {
    let mut index = vec![0, 0];
    let mut count = 0;
    while let UpdaterResult::NotDone = update_index_row_major(&mut index, &[1, 1]) {
        assert_eq!(index.as_slice(), &[0, 0]);
        count += 1;
    }

    assert_eq!(count, 0);
}

#[test]
fn returns_correct_indices() {
    let mut index = vec![0, 0, 0, 0];

    for i in 0..2 {
        for j in 0..3 {
            for k in 0..4 {
                for l in 0..17 {
                    assert_eq!(index.as_slice(), &[i, j, k, l]);
                    if let UpdaterResult::Done =
                        update_index_row_major(&mut index, &[2, 3, 4, 17])
                    {
                        break;
                    }
                }
            }
        }
    }

    assert_eq!(index.as_slice(), &[0, 0, 0, 0]);
}

#[test]
fn by_column_iteration_wrapper_exhaustive() {
    let mut index_wrapper = IndexIteration::row_major(&[2, 3, 4, 17]);
    for i in 0..2 {
        for j in 0..3 {
            for k in 0..4 {
                for l in 0..17 {
                    let res = index_wrapper.next().unwrap();
                    assert_eq!(res, &[i, j, k, l]);
                }
            }
        }
    }
    assert_eq!(index_wrapper.next(), None);
    assert_eq!(index_wrapper.next(), None);
}

#[test]
fn by_column_iteration_wrapper_no_more() {
    let mut index_wrapper = IndexIteration::row_major(&[2, 3, 4, 17]);
    let mut count = 0;
    while let Some(_) = index_wrapper.next() {
        count += 1;
    }
    assert_eq!(count, 2 * 3 * 4 * 17);
}

#[test]
fn update_index_carries_into_the_axis_before() {
    let mut index = vec![0, 2, 3];
    assert_eq!(update_index_row_major(&mut index, &[2, 3, 4]), UpdaterResult::NotDone);
    assert_eq!(index, vec![1, 0, 0]);
    let mut index = vec![1, 2, 3];
    assert_eq!(update_index_row_major(&mut index, &[2, 3, 4]), UpdaterResult::Done);
    assert_eq!(index, vec![0, 0, 0]);
    let mut index: Vec<usize> = vec![];
    assert_eq!(update_index_row_major(&mut index, &[]), UpdaterResult::Done);
}

#[test]
fn iteration_over_a_zero_axis_yields_the_zero_index_once() {
    let mut walk = IndexIteration::row_major(&[3, 0, 2]);
    assert_eq!(walk.next(), Some(&[0usize, 0, 0][..]));
    assert_eq!(walk.next(), None);
    assert_eq!(walk.next(), None);
    assert!(contains_zero(&[3, 0, 2]));
    assert!(!contains_zero(&[3, 1, 2]));
}

#[test]
fn iteration_over_unit_axes_yields_the_zero_index_once() {
    let mut walk = IndexIteration::new(&[1, 1, 1]);
    assert_eq!(walk.next(), Some(&[0usize, 0, 0][..]));
    assert_eq!(walk.next(), None);
    assert_eq!(walk.next(), None);
}

#[test]
fn iteration_over_no_axis_yields_the_empty_index_once() {
    let mut walk = IndexIteration::row_major(&[]);
    assert_eq!(walk.next(), Some(&[][..]));
    assert_eq!(walk.next(), None);
}

#[test]
fn iteration_ends_at_the_largest_index() {
    let mut walk = IndexIteration::row_major(&[2, 3, 4, 17]);
    let mut last: Vec<usize> = Vec::new();
    let mut seen: Vec<Vec<usize>> = Vec::new();
    while let Some(index) = walk.next() {
        last = index.to_vec();
        seen.push(index.to_vec());
    }
    assert_eq!(last, vec![1, 2, 3, 16]);
    assert_eq!(seen[0], vec![0, 0, 0, 0]);
    for pair in seen.windows(2) {
        assert!(pair[0] < pair[1]);
    }
}
