use mathoxide::array::zero_buffer;
use mathoxide::array::item_of;
use mathoxide::element::Element;
use mathoxide::error::{ArrayError, StorageError};
use mathoxide::views::ContiguousView;

#[test]
fn zero_of_every_element_type() {
    assert_eq!(<u8 as Element>::zero(), 0);
    assert_eq!(<u16 as Element>::zero(), 0);
    assert_eq!(<u32 as Element>::zero(), 0);
    assert_eq!(<u64 as Element>::zero(), 0);
    assert_eq!(<u128 as Element>::zero(), 0);
    assert_eq!(<usize as Element>::zero(), 0);
    assert_eq!(<i8 as Element>::zero(), 0);
    assert_eq!(<i16 as Element>::zero(), 0);
    assert_eq!(<i32 as Element>::zero(), 0);
    assert_eq!(<i64 as Element>::zero(), 0);
    assert_eq!(<i128 as Element>::zero(), 0);
    assert_eq!(<isize as Element>::zero(), 0);
}

#[test]
fn checked_sum_reports_what_does_not_fit() {
    assert_eq!(200u8.checked_sum(55), Some(255));
    assert_eq!(200u8.checked_sum(56), None);
    assert_eq!(Element::checked_sum(-100i8, -28), Some(-128));
    assert_eq!(Element::checked_sum(-100i8, -29), None);
    assert_eq!(Element::checked_sum(100i8, 28), None);
    assert_eq!(Element::checked_sum(u64::MAX, 1), None);
    assert_eq!(Element::checked_sum(i64::MAX, i64::MIN), Some(-1));
    assert_eq!(Element::checked_sum(usize::MAX - 1, 1), Some(usize::MAX));
    assert_eq!(Element::checked_sum(u128::MAX, 0), Some(u128::MAX));
    assert_eq!(Element::checked_sum(i128::MIN, -1), None);
    assert_eq!(Element::checked_sum(7u16, 8), Some(15));
    assert_eq!(Element::checked_sum(7u32, 8), Some(15));
    assert_eq!(Element::checked_sum(-7i16, 8), Some(1));
    assert_eq!(Element::checked_sum(-7i32, 8), Some(1));
    assert_eq!(Element::checked_sum(-7isize, 8), Some(1));
}

#[test]
fn zero_buffer_holds_zeros() {
    assert_eq!(zero_buffer::<u32>(4), vec![0, 0, 0, 0]);
    assert_eq!(zero_buffer::<i8>(0), Vec::<i8>::new());
}

#[test]
fn item_of_reads_the_element_at_the_offset() {
    let buffer = [5u8, 6, 7];
    assert_eq!(item_of(&buffer, &ContiguousView::new_with_offset(&[1], 2)), Ok(7));
    assert_eq!(item_of(&buffer, &ContiguousView::new_with_offset(&[1, 1], 0)), Ok(5));
    assert_eq!(item_of(&buffer, &ContiguousView::new(&[])), Ok(5));
    assert_eq!(
        item_of(&buffer, &ContiguousView::new_with_offset(&[1], 3)),
        Err(ArrayError::StorageError(StorageError::TooShort))
    );
    assert_eq!(
        item_of(&buffer, &ContiguousView::new(&[3])),
        Err(ArrayError::SizeError { numel: 3 })
    );
    assert_eq!(
        item_of(&buffer, &ContiguousView::new(&[0])),
        Err(ArrayError::SizeError { numel: 0 })
    );
}
