use bird_boxes::{FieldError, IsoField, IsoSample};

fn bits(values: &[f32]) -> Vec<u32> {
    values.iter().map(|v| v.to_bits()).collect()
}

fn corners(sample: IsoSample) -> [f32; 4] {
    [
        f32::from_bits(sample.0[0]),
        f32::from_bits(sample.0[1]),
        f32::from_bits(sample.0[2]),
        f32::from_bits(sample.0[3]),
    ]
}

/// The grid
///
/// ```text
/// y=2:  6 7 8
/// y=1:  3 4 5
/// y=0:  0 1 2
/// ```
fn three_by_three() -> IsoField {
    IsoField::new_from((3, 3), bits(&[0.0, 1.0, 2.0, 3.0, 4.0, 5.0, 6.0, 7.0, 8.0])).unwrap()
}

#[test]
fn new_is_all_zero() {
    let field = IsoField::new((3, 2));
    assert_eq!(field.size(), (3, 2));
    for y in 0..2 {
        for x in 0..3 {
            assert_eq!(field.get(x, y), Ok(0.0f32.to_bits()));
        }
    }
}

#[test]
fn new_of_no_points() {
    let field = IsoField::new((0, 5));
    assert_eq!(field.size(), (0, 5));
    assert_eq!(field.get(0, 0), Err(FieldError::OutOfBounds));
}

#[test]
fn default_has_no_point() {
    let field = IsoField::default();
    assert_eq!(field.size(), (0, 0));
    assert_eq!(field.get(0, 0), Err(FieldError::OutOfBounds));
}

#[test]
fn new_from_keeps_the_values_row_by_row() {
    let field = three_by_three();
    assert_eq!(field.size(), (3, 3));
    assert_eq!(field.get(0, 0), Ok(0.0f32.to_bits()));
    assert_eq!(field.get(2, 0), Ok(2.0f32.to_bits()));
    assert_eq!(field.get(0, 1), Ok(3.0f32.to_bits()));
    assert_eq!(field.get(1, 2), Ok(7.0f32.to_bits()));
    assert_eq!(field.get(2, 2), Ok(8.0f32.to_bits()));
}

#[test]
fn new_from_turns_down_a_wrong_count() {
    assert_eq!(
        IsoField::new_from((2, 2), bits(&[1.0, 2.0, 3.0])).err(),
        Some(FieldError::ValueCountMismatch)
    );
    assert_eq!(
        IsoField::new_from((2, 2), bits(&[1.0, 2.0, 3.0, 4.0, 5.0])).err(),
        Some(FieldError::ValueCountMismatch)
    );
    assert_eq!(
        IsoField::new_from((3, 2), bits(&[1.0, 2.0, 3.0, 4.0])).err(),
        Some(FieldError::ValueCountMismatch)
    );
    assert_eq!(
        IsoField::new_from((0, 2), bits(&[1.0, 2.0])).err(),
        Some(FieldError::ValueCountMismatch)
    );
    assert_eq!(
        IsoField::new_from((usize::MAX, 2), Vec::new()).err(),
        Some(FieldError::ValueCountMismatch)
    );
}

#[test]
fn new_from_takes_an_empty_grid() {
    let field = IsoField::new_from((0, 7), Vec::new()).unwrap();
    assert_eq!(field.size(), (0, 7));
    let field = IsoField::new_from((4, 0), Vec::new()).unwrap();
    assert_eq!(field.size(), (4, 0));
}

#[test]
fn get_outside_the_grid_is_an_error() {
    let field = three_by_three();
    assert_eq!(field.get(3, 0), Err(FieldError::OutOfBounds));
    assert_eq!(field.get(0, 3), Err(FieldError::OutOfBounds));
    assert_eq!(field.get(3, 3), Err(FieldError::OutOfBounds));
    assert_eq!(field.get(usize::MAX, 0), Err(FieldError::OutOfBounds));
    assert_eq!(field.get(0, usize::MAX), Err(FieldError::OutOfBounds));
}

#[test]
fn set_changes_one_value() {
    let mut field = three_by_three();
    assert_eq!(field.set(1, 2, 42.5f32.to_bits()), Ok(()));
    for y in 0..3 {
        for x in 0..3 {
            let expected: f32 = if (x, y) == (1, 2) { 42.5 } else { (y * 3 + x) as f32 };
            assert_eq!(field.get(x, y), Ok(expected.to_bits()));
        }
    }
}

#[test]
fn set_outside_the_grid_is_an_error_and_changes_nothing() {
    let mut field = three_by_three();
    assert_eq!(field.set(3, 1, 9.0f32.to_bits()), Err(FieldError::OutOfBounds));
    assert_eq!(field.set(1, 3, 9.0f32.to_bits()), Err(FieldError::OutOfBounds));
    for y in 0..3 {
        for x in 0..3 {
            assert_eq!(field.get(x, y), Ok(((y * 3 + x) as f32).to_bits()));
        }
    }
}

#[test]
fn sample_lists_bottom_left_top_left_top_right_bottom_right() {
    let field = three_by_three();
    assert_eq!(corners(field.sample(0, 0).unwrap()), [0.0, 3.0, 4.0, 1.0]);
    assert_eq!(corners(field.sample(1, 0).unwrap()), [1.0, 4.0, 5.0, 2.0]);
    assert_eq!(corners(field.sample(0, 1).unwrap()), [3.0, 6.0, 7.0, 4.0]);
    assert_eq!(corners(field.sample(1, 1).unwrap()), [4.0, 7.0, 8.0, 5.0]);
}

#[test]
fn sample_outside_the_cells_is_an_error() {
    let field = three_by_three();
    assert_eq!(field.sample(2, 0).err(), Some(FieldError::OutOfBounds));
    assert_eq!(field.sample(0, 2).err(), Some(FieldError::OutOfBounds));
    assert_eq!(field.sample(usize::MAX, 0).err(), Some(FieldError::OutOfBounds));
    assert_eq!(field.sample(0, usize::MAX).err(), Some(FieldError::OutOfBounds));
    let narrow = IsoField::new((1, 4));
    assert_eq!(narrow.sample(0, 0).err(), Some(FieldError::OutOfBounds));
}

#[test]
fn sample_all_goes_row_by_row_from_the_bottom_left() {
    let field = IsoField::new_from(
        (4, 3),
        bits(&[0.0, 1.0, 2.0, 3.0, 4.0, 5.0, 6.0, 7.0, 8.0, 9.0, 10.0, 11.0]),
    )
    .unwrap();
    let mut samples = field.sample_all();
    let mut seen: Vec<(usize, usize, [f32; 4])> = Vec::new();
    while let Some((sample, x, y)) = samples.next() {
        seen.push((x, y, corners(sample)));
    }
    assert_eq!(
        seen,
        vec![
            (0, 0, [0.0, 4.0, 5.0, 1.0]),
            (1, 0, [1.0, 5.0, 6.0, 2.0]),
            (2, 0, [2.0, 6.0, 7.0, 3.0]),
            (0, 1, [4.0, 8.0, 9.0, 5.0]),
            (1, 1, [5.0, 9.0, 10.0, 6.0]),
            (2, 1, [6.0, 10.0, 11.0, 7.0]),
        ]
    );
    assert!(samples.next().is_none());
}

#[test]
fn sample_all_of_a_two_by_two_grid_is_one_cell() {
    let field = IsoField::new_from((2, 2), bits(&[1.0, 2.0, 3.0, 4.0])).unwrap();
    let mut samples = field.sample_all();
    let (sample, x, y) = samples.next().unwrap();
    assert_eq!((x, y), (0, 0));
    assert_eq!(corners(sample), [1.0, 3.0, 4.0, 2.0]);
    assert!(samples.next().is_none());
}

#[test]
fn sample_all_of_a_grid_without_cells_is_empty() {
    for size in [(0, 0), (1, 1), (1, 5), (5, 1), (0, 3), (3, 0)] {
        let field = IsoField::new(size);
        assert!(field.sample_all().next().is_none(), "{size:?}");
    }
}
