use pulseq_rs::error::{ConversionError, ShapeDecompressionError};
use pulseq_rs::fixed::UNIT;
use pulseq_rs::parse_file::helpers::decompress_shape;
use pulseq_rs::sequence::shapes::expand_shape;
use pulseq_rs::Shape;

fn fx(x: f64) -> i64 {
    (x * 1e9).round() as i64
}

fn fixed(values: &[f64]) -> Vec<i64> {
    values.iter().map(|x| fx(*x)).collect()
}

#[test]
fn uncompressed_shape_comes_back_unchanged() {
    let samples = fixed(&[0.0, 3.0, 1.0, 0.0, 2.0]);
    assert_eq!(decompress_shape(samples.clone(), 5), Ok(samples));
}

#[test]
fn samples_without_two_equal_neighbours_hold_no_run_length() {
    // No two samples that follow each other are equal, so the three and the
    // two are differences like the others.
    let stored = fixed(&[0.0, 3.0, 1.0, 0.0, 2.0]);
    assert_eq!(
        decompress_shape(stored, 6),
        Err(ShapeDecompressionError::WrongDecompressedCount { count: 5, expected: 6 })
    );
    // Two equal samples make the next one a run length: two more twos.
    let stored = fixed(&[0.0, 3.0, 1.0, 0.0, 2.0, 2.0, 2.0]);
    assert_eq!(
        decompress_shape(stored, 8),
        Ok(fixed(&[0.0, 3.0, 4.0, 4.0, 6.0, 8.0, 10.0, 12.0]))
    );
}

#[test]
fn run_of_zeros_makes_a_block_pulse() {
    let stored = fixed(&[1.0, 0.0, 0.0, 97.0]);
    let shape = decompress_shape(stored, 100).unwrap();
    assert_eq!(shape, vec![UNIT; 100]);
}

#[test]
fn two_samples_behind_a_run_length_are_differences() {
    let stored = fixed(&[0.5, 0.5, 2.0, 2.0, 2.0, 1.0]);
    let shape = decompress_shape(stored, 7).unwrap();
    assert_eq!(shape, fixed(&[0.5, 1.0, 1.5, 2.0, 4.0, 6.0, 8.0]));
}

#[test]
fn fractional_run_length_is_refused() {
    let stored = fixed(&[1.0, 1.0, 0.5]);
    assert_eq!(
        decompress_shape(stored, 5),
        Err(ShapeDecompressionError::RleCountIsNotInteger { index: 2, value: fx(0.5) })
    );
}

#[test]
fn wrong_count_is_refused() {
    let stored = fixed(&[1.0, 1.0, 3.0]);
    assert_eq!(
        decompress_shape(stored, 4),
        Err(ShapeDecompressionError::WrongDecompressedCount { count: 5, expected: 4 })
    );
}

#[test]
fn negative_run_length_repeats_nothing() {
    let stored = fixed(&[1.0, 1.0, -2.0]);
    assert_eq!(decompress_shape(stored, 2), Ok(fixed(&[1.0, 2.0])));
}

#[test]
fn running_sum_stays_at_the_bound() {
    let stored = vec![i64::MAX, i64::MAX, 0, 5, -10];
    assert_eq!(
        decompress_shape(stored, 4),
        Ok(vec![i64::MAX, i64::MAX, i64::MAX, i64::MAX - 10])
    );
    let stored = vec![i64::MIN, -7, -7, 2 * UNIT, 9];
    assert_eq!(
        decompress_shape(stored, 6),
        Ok(vec![i64::MIN, i64::MIN, i64::MIN, i64::MIN, i64::MIN, i64::MIN + 9])
    );
}

#[test]
fn run_length_at_the_start_needs_two_samples_before_it() {
    let stored = fixed(&[0.0, 0.0, 3.0, 1.0]);
    assert_eq!(decompress_shape(stored, 6), Ok(fixed(&[0.0, 0.0, 0.0, 0.0, 0.0, 1.0])));
    let stored = fixed(&[4.0, 4.0]);
    assert_eq!(decompress_shape(stored, 3).err(), Some(
        ShapeDecompressionError::WrongDecompressedCount { count: 2, expected: 3 }
    ));
}

#[test]
fn compressed_ramp_comes_back() {
    // The differences 1, 1, 1, 1, 1, -5 of the shape 1, 2, 3, 4, 5, 0.
    let stored = fixed(&[1.0, 1.0, 3.0, -5.0]);
    assert_eq!(decompress_shape(stored, 6), Ok(fixed(&[1.0, 2.0, 3.0, 4.0, 5.0, 0.0])));
}

#[test]
fn run_length_equal_to_its_value_is_not_read_twice() {
    // Five threes, then a seven: 3 3 (3 more) 7.
    let stored = fixed(&[3.0, 3.0, 3.0, 7.0]);
    assert_eq!(
        decompress_shape(stored, 6),
        Ok(fixed(&[3.0, 6.0, 9.0, 12.0, 15.0, 22.0]))
    );
}

#[test]
fn expansion_interpolates_at_half_steps() {
    let shape = Shape(fixed(&[0.0, 1.0]));
    let time = Shape(fixed(&[0.0, 4.0]));
    let expanded = expand_shape(&shape, &time).unwrap();
    assert_eq!(expanded.0, fixed(&[0.125, 0.375, 0.625, 0.875]));
}

#[test]
fn expansion_of_a_trapezoid() {
    let shape = Shape(fixed(&[0.0, 1.0, 1.0, 0.0]));
    let time = Shape(fixed(&[0.0, 2.0, 5.0, 7.0]));
    let expanded = expand_shape(&shape, &time).unwrap();
    assert_eq!(expanded.0, fixed(&[0.25, 0.75, 1.0, 1.0, 1.0, 0.75, 0.25]));
    assert_eq!(expanded.0.len(), 7);
}

#[test]
fn expansion_rounds_down() {
    let shape = Shape(vec![0, 1]);
    let time = Shape(fixed(&[0.0, 2.0]));
    assert_eq!(expand_shape(&shape, &time).unwrap().0, vec![0, 0]);
    let shape = Shape(vec![0, -1]);
    assert_eq!(expand_shape(&shape, &time).unwrap().0, vec![-1, -1]);
}

#[test]
fn expansion_of_nothing_is_nothing() {
    let expanded = expand_shape(&Shape(vec![]), &Shape(vec![])).unwrap();
    assert!(expanded.0.is_empty());
}

#[test]
fn expansion_wants_equal_lengths() {
    let shape = Shape(fixed(&[0.0, 1.0]));
    let time = Shape(fixed(&[0.0, 1.0, 2.0]));
    assert_eq!(
        expand_shape(&shape, &time).err(),
        Some(ConversionError::TimeShapeMismatch { shape_len: 2, time_len: 3 })
    );
}

#[test]
fn expansion_wants_whole_times() {
    let shape = Shape(fixed(&[0.0, 1.0]));
    let time = Shape(fixed(&[0.0, 1.5]));
    assert_eq!(expand_shape(&shape, &time).err(), Some(ConversionError::TimeShapeNonInteger));
}

#[test]
fn expansion_refuses_a_step_back() {
    let shape = Shape(fixed(&[0.0, 1.0, 0.0]));
    let time = Shape(fixed(&[0.0, 4.0, 3.0]));
    assert_eq!(
        expand_shape(&shape, &time).err(),
        Some(ConversionError::TimeShapeNonIncreasing)
    );
}

#[test]
fn expansion_refuses_a_repeated_boundary() {
    let shape = Shape(fixed(&[0.0, 1.0, 1.0]));
    let time = Shape(fixed(&[0.0, 2.0, 2.0]));
    assert_eq!(
        expand_shape(&shape, &time).err(),
        Some(ConversionError::TimeShapeNonIncreasing)
    );
    let time = Shape(fixed(&[3.0, 3.0, 4.0]));
    assert_eq!(
        expand_shape(&shape, &time).err(),
        Some(ConversionError::TimeShapeNonIncreasing)
    );
    let time = Shape(fixed(&[0.0, 0.0, 4.0]));
    assert_eq!(
        expand_shape(&shape, &time).err(),
        Some(ConversionError::TimeShapeNonIncreasing)
    );
}

#[test]
fn first_boundary_may_be_the_start() {
    let shape = Shape(fixed(&[0.0, 1.0, 0.0]));
    let time = Shape(fixed(&[0.0, 2.0, 3.0]));
    assert_eq!(expand_shape(&shape, &time).unwrap().0, fixed(&[0.25, 0.75, 0.5]));
    assert_eq!(expand_shape(&Shape(fixed(&[7.0])), &Shape(fixed(&[0.0]))).unwrap().0, vec![]);
}

#[test]
fn boundaries_are_held_to_the_range_of_steps() {
    let shape = Shape(fixed(&[0.0, 0.0]));
    // Below zero every value names the start, and a second entry cannot
    // name it again.
    for time in [[0.0, -1.0], [-1.0, 0.0], [-5.0, -2.0], [2.0, -2.0]] {
        assert_eq!(
            expand_shape(&shape, &Shape(fixed(&time))).err(),
            Some(ConversionError::TimeShapeNonIncreasing)
        );
    }
    // Beyond the last step that can be counted every value names that step.
    for time in [[5e9, 6e9], [6e9, 5e9], [4294967295.0, 4294967296.0]] {
        assert_eq!(
            expand_shape(&shape, &Shape(fixed(&time))).err(),
            Some(ConversionError::TimeShapeNonIncreasing)
        );
    }
    assert_eq!(expand_shape(&shape, &Shape(fixed(&[-3.0, 2.0]))).unwrap().0, vec![0, 0]);
}
