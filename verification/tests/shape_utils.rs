use mathoxide::error::ShapeError;
use mathoxide::shape_utils::{infer_shape, normalize_shape, ShapeDim};

#[test]
fn infer_shape_divisible() {
    assert_eq!(infer_shape(&[-1isize, 3], 9), Ok(vec![3, 3]));
}

#[test]
fn infer_shape_not_divisible() {
    assert_eq!(infer_shape(&[-1isize, 3], 7), Err(ShapeError::NotDivisible { numel: 7 }));
}

#[test]
fn infer_shape_rejects_an_empty_request() {
    assert_eq!(infer_shape::<isize>(&[], 4), Err(ShapeError::Empty));
    assert_eq!(infer_shape::<usize>(&[], 0), Err(ShapeError::Empty));
}

#[test]
fn infer_shape_rejects_two_open_axes() {
    assert_eq!(infer_shape(&[-1isize, -1], 4), Err(ShapeError::MultipleInferred));
    assert_eq!(infer_shape(&[-1isize, 0, -7], 0), Err(ShapeError::MultipleInferred));
}

#[test]
fn infer_shape_returns_known_axes_as_they_are() {
    assert_eq!(infer_shape(&[2usize, 3], 7), Ok(vec![2, 3]));
    assert_eq!(infer_shape(&[2isize, 0, 5], 1), Ok(vec![2, 0, 5]));
    assert_eq!(infer_shape(&[usize::MAX, usize::MAX], 1), Ok(vec![usize::MAX, usize::MAX]));
}

#[test]
fn infer_shape_with_a_zero_axis() {
    assert_eq!(infer_shape(&[-1isize, 0], 0), Err(ShapeError::AmbiguousEmpty));
    assert_eq!(infer_shape(&[-1isize, 0], 6), Err(ShapeError::ZeroAxis));
    assert_eq!(infer_shape(&[isize::MAX, -1, isize::MAX, 0], 6), Err(ShapeError::ZeroAxis));
}

#[test]
fn infer_shape_resolves_the_open_axis() {
    assert_eq!(infer_shape(&[-1isize], 20), Ok(vec![20]));
    assert_eq!(infer_shape(&[-1isize], 0), Ok(vec![0]));
    assert_eq!(infer_shape(&[-1isize, 5], 20), Ok(vec![4, 5]));
    assert_eq!(infer_shape(&[2isize, -1, 5], 20), Ok(vec![2, 2, 5]));
    assert_eq!(infer_shape(&[4isize, 5, -1], 20), Ok(vec![4, 5, 1]));
    assert_eq!(infer_shape(&[4isize, -1], 0), Ok(vec![4, 0]));
}

#[test]
fn infer_shape_with_known_axes_beyond_usize() {
    let big = isize::MAX;
    assert_eq!(infer_shape(&[big, big, -1], 6), Err(ShapeError::NotDivisible { numel: 6 }));
    assert_eq!(
        infer_shape(&[big, big, -1], 0),
        Ok(vec![big as usize, big as usize, 0])
    );
}

#[test]
fn normalize_shape_reads_negative_values_as_open() {
    let dims = normalize_shape(&[3isize, -1, 0, -5]);
    assert_eq!(
        dims,
        vec![ShapeDim::Known(3), ShapeDim::Inferred, ShapeDim::Known(0), ShapeDim::Inferred]
    );
    let dims = normalize_shape(&[3usize, 0]);
    assert_eq!(dims, vec![ShapeDim::Known(3), ShapeDim::Known(0)]);
    assert_eq!(ShapeDim::from(-1isize), ShapeDim::Inferred);
    assert_eq!(ShapeDim::from(7usize), ShapeDim::Known(7));
    assert_eq!(ShapeDim::Known(7).unwrap_known(), Some(7));
    assert_eq!(ShapeDim::Inferred.unwrap_known(), None);
}
