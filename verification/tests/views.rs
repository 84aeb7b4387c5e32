use mathoxide::error::{ArrayError, IndexFault};
use mathoxide::view_iters::ContiguousViewIterator;
use mathoxide::views::{ArrayView, ContiguousView};

#[test]
fn contiguous_view_check() {
    assert_eq!(ContiguousView::new(&[2, 3]).is_contiguous(), true);
}

#[test]
fn contiguous_view_check_last_item() {
    let view = ContiguousView::new(&[2, 3, 4]);
    assert_eq!(view.translate(&[1, 2, 3]), view.numel() - 1);
}

#[test]
fn contiguous_view_offset_check_last_item() {
    let offset: usize = 5;
    let view = ContiguousView::new_with_offset(&[2, 3, 4], offset);
    assert_eq!(view.translate(&[1, 2, 3]), view.numel() - 1 + offset);
}

#[test]
fn contiguous_view_translate() {
    let view = ContiguousView::new(&[2, 3, 4]);
    let mut counter = 0;
    for i in 0..2 {
        for j in 0..3 {
            for k in 0..4 {
                assert_eq!(view.translate(&[i, j, k]), counter);
                counter += 1;
            }
        }
    }
}

#[test]
fn contiguous_view_translate_iter() {
    let offset: usize = 5;
    let view = ContiguousView::new_with_offset(&[2, 3, 4], offset);
    let mut counter = 0;
    let mut offsets = view.translate_iter();
    while let Some(i) = offsets.next() {
        assert_eq!(i, counter + offset);
        counter += 1;
    }
    assert_eq!(counter, view.numel());
}

#[test]
fn contiguous_view_ndims() {
    assert_eq!(ContiguousView::new(&[2]).ndim(), 1);
    assert_eq!(ContiguousView::new(&[2, 3]).ndim(), 2);
    assert_eq!(ContiguousView::new(&[2, 3, 4]).ndim(), 3);
}

#[test]
fn contiguous_view_stride_is_row_major() {
    let view = ContiguousView::new_with_offset(&[2, 3, 4], 7);
    assert_eq!(view.shape(), &[2, 3, 4]);
    assert_eq!(view.stride(), &[12, 4, 1]);
    assert_eq!(view.offset(), 7);
    assert_eq!(view.numel(), 24);
    let view = ContiguousView::new(&[5]);
    assert_eq!(view.stride(), &[1]);
    let view = ContiguousView::new(&[2, 0, 3]);
    assert_eq!(view.stride(), &[0, 3, 1]);
    assert_eq!(view.numel(), 0);
}

#[test]
fn contiguous_view_translate_is_a_dot_product() {
    let view = ContiguousView::new_with_offset(&[2, 3, 4], 7);
    assert_eq!(view.translate(&[1, 1, 1]), 7 + 12 + 4 + 1);
    assert_eq!(view.translate(&[2, 0, 0]), 7 + 24);
    assert_eq!(view.translate(&[1, 2]), 7 + 12 + 8);
    assert_eq!(view.translate(&[]), 7);
}

#[test]
fn contiguous_view_try_translate() {
    let view = ContiguousView::new_with_offset(&[2, 3, 4], 7);
    assert_eq!(view.try_translate(&[1, 2, 3]), Ok(7 + 23));
    assert_eq!(view.try_translate(&[0, 0, 0]), Ok(7));
    assert_eq!(
        view.try_translate(&[2, 0, 0]),
        Err(ArrayError::IndexError(IndexFault::Bound { axis: 0, component: 2, size: 2 }))
    );
    assert_eq!(
        view.try_translate(&[0, 3, 0]),
        Err(ArrayError::IndexError(IndexFault::Bound { axis: 1, component: 3, size: 3 }))
    );
    assert_eq!(
        view.try_translate(&[0, 0, 4]),
        Err(ArrayError::IndexError(IndexFault::Bound { axis: 2, component: 4, size: 4 }))
    );
    assert_eq!(
        view.try_translate(&[0, 9, 4]),
        Err(ArrayError::IndexError(IndexFault::Bound { axis: 1, component: 9, size: 3 }))
    );
    assert_eq!(
        view.try_translate(&[0, 0]),
        Err(ArrayError::IndexError(IndexFault::Rank { index: 2, view: 3 }))
    );
    assert_eq!(
        view.try_translate(&[0, 0, 0, 0]),
        Err(ArrayError::IndexError(IndexFault::Rank { index: 4, view: 3 }))
    );
}

#[test]
fn contiguous_view_try_new_rejects_what_does_not_fit() {
    assert!(ContiguousView::try_new_with_offset(&[2, 3], usize::MAX - 6).is_some());
    assert!(ContiguousView::try_new_with_offset(&[2, 3], usize::MAX - 5).is_none());
    assert!(ContiguousView::try_new_with_offset(&[usize::MAX, 2], 0).is_none());
    assert!(ContiguousView::try_new_with_offset(&[0, usize::MAX, 2], 0).is_none());
    assert!(ContiguousView::try_new_with_offset(&[usize::MAX, 2, 0], 0).is_some());
    assert!(ContiguousView::try_new_with_offset(&[], usize::MAX - 1).is_some());
    assert!(ContiguousView::try_new_with_offset(&[], usize::MAX).is_none());
}

#[test]
fn contiguous_view_iterator_is_restartable() {
    let view = ContiguousView::new_with_offset(&[2, 2], 3);
    for _ in 0..2 {
        let mut offsets = view.translate_iter();
        assert_eq!(offsets.next(), Some(3));
        assert_eq!(offsets.next(), Some(4));
        assert_eq!(offsets.next(), Some(5));
        assert_eq!(offsets.next(), Some(6));
        assert_eq!(offsets.next(), None);
        assert_eq!(offsets.next(), None);
    }
}

#[test]
fn contiguous_view_iterator_of_an_empty_run() {
    let mut offsets = ContiguousViewIterator::new(4, 4);
    assert_eq!(offsets.next(), None);
    let mut offsets = ContiguousViewIterator::new(5, 4);
    assert_eq!(offsets.next(), None);
    let mut offsets = ContiguousViewIterator::new(usize::MAX - 1, usize::MAX);
    assert_eq!(offsets.next(), Some(usize::MAX - 1));
    assert_eq!(offsets.next(), None);
}
