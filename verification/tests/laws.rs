use std::collections::HashMap;
use std::sync::Arc;

use pulseq_rs::error::ConversionError;
use pulseq_rs::fixed::UNIT;
use pulseq_rs::parse_file::helpers::decompress_shape;
use pulseq_rs::sequence::shapes::{expand_shape, ShapeLib};
use pulseq_rs::Shape;

/// Stores a run of two or more equal values as the value twice and the
/// number of the values behind the first two.
fn compress(differences: &[i64]) -> Vec<i64> {
    let mut stored = Vec::new();
    let mut i = 0;
    while i < differences.len() {
        let mut n = 1;
        while i + n < differences.len() && differences[i + n] == differences[i] {
            n += 1;
        }
        stored.push(differences[i]);
        if n > 1 {
            stored.push(differences[i]);
            stored.push((n as i64 - 2) * UNIT);
        }
        i += n;
    }
    stored
}

fn integrate(differences: &[i64]) -> Vec<i64> {
    let mut sum: i64 = 0;
    differences
        .iter()
        .map(|d| {
            sum = sum.saturating_add(*d);
            sum
        })
        .collect()
}

fn examples() -> Vec<Vec<i64>> {
    let u = UNIT;
    vec![
        vec![0, 0, 0, 0],
        vec![u, 0, 0, 0, 0, 0, 0, -u],
        vec![u, u],
        vec![3, 3, 3, 3, 3, 7, 7, 1, 1, 1, 1],
        vec![2 * u, 2 * u, 2 * u, 2 * u, 5],
        vec![0, 0, 0, 0, 0, 0, u, u, 0, 0],
        vec![u, u, u, u, u, u, 3 * u, 3 * u, 3 * u, 3 * u, 3 * u],
        vec![-4, -4, -4, -4, 0, 0, 0, 0, 0, 9, 1, 1],
        vec![5; 1000],
        vec![i64::MAX, i64::MAX, i64::MAX, i64::MAX, i64::MAX, i64::MIN, i64::MIN],
    ]
}

#[test]
fn compressed_differences_come_back_as_their_running_sums() {
    for differences in examples() {
        let stored = compress(&differences);
        assert_ne!(stored.len(), differences.len());
        assert_eq!(
            decompress_shape(stored, differences.len() as u32),
            Ok(integrate(&differences)),
            "{:?}",
            differences
        );
    }
}

#[test]
fn stored_form_of_the_same_length_is_taken_as_the_shape() {
    // Runs of three are stored in three samples, and values that stand alone
    // in one: this stored form is as long as the differences.
    let differences = vec![UNIT, 2 * UNIT, 2 * UNIT, 2 * UNIT, 7];
    let stored = compress(&differences);
    assert_eq!(stored, vec![UNIT, 2 * UNIT, 2 * UNIT, UNIT, 7]);
    assert_eq!(decompress_shape(stored.clone(), 5), Ok(stored));
}

#[test]
fn samples_of_the_announced_number_are_never_changed() {
    for samples in examples() {
        assert_eq!(decompress_shape(samples.clone(), samples.len() as u32), Ok(samples));
    }
    assert_eq!(decompress_shape(vec![], 0), Ok(vec![]));
    assert_eq!(decompress_shape(vec![UNIT / 2; 3], 3), Ok(vec![UNIT / 2; 3]));
}

#[test]
fn expansion_is_as_long_as_the_last_boundary() {
    let cases: Vec<(Vec<i64>, Vec<i64>)> = vec![
        (vec![0, 1], vec![0, 4]),
        (vec![5], vec![3]),
        (vec![5], vec![0]),
        (vec![0, 9, 9, 0], vec![0, 2, 5, 7]),
        (vec![1, 2, 3], vec![1, 2, 3]),
        (vec![1, 2, 3], vec![0, 1, 100]),
        (vec![7, -7], vec![-3, 2]),
    ];
    for (shape, time) in cases {
        let last = (*time.last().unwrap()).max(0) as usize;
        let shape = Shape(shape.iter().map(|x| x * UNIT).collect());
        let time = Shape(time.iter().map(|x| x * UNIT).collect());
        assert_eq!(expand_shape(&shape, &time).unwrap().0.len(), last);
    }
}

#[test]
fn expansion_stays_between_the_amplitudes() {
    let shape = Shape(vec![-UNIT, UNIT, 3, i64::MAX, i64::MIN]);
    let time = Shape(vec![0, 3 * UNIT, 10 * UNIT, 17 * UNIT, 20 * UNIT]);
    let expanded = expand_shape(&shape, &time).unwrap().0;
    assert_eq!(expanded.len(), 20);
    assert!(expanded[..3].iter().all(|x| (-UNIT..=UNIT).contains(x)));
    assert!(expanded[3..10].iter().all(|x| (3..=UNIT).contains(x)));
    assert!(expanded[10..17].iter().all(|x| *x >= 3));
    assert!(expanded[10..17].windows(2).all(|w| w[0] < w[1]));
    assert!(expanded[17..].windows(2).all(|w| w[0] > w[1]));
    // The first boundary starts the first line: before it the amplitude is
    // that of the first entry.
    let shape = Shape(vec![4 * UNIT, 8 * UNIT]);
    let time = Shape(vec![2 * UNIT, 4 * UNIT]);
    assert_eq!(
        expand_shape(&shape, &time).unwrap().0,
        vec![4 * UNIT, 4 * UNIT, 5 * UNIT, 7 * UNIT]
    );
}

#[test]
fn entry_that_is_not_larger_than_the_one_before_is_refused() {
    let times: Vec<Vec<i64>> = vec![
        vec![0, 4, 3],
        vec![0, 4, 4],
        vec![5, 4],
        vec![1, 2, 3, 3, 9],
        vec![9, 8, 7, 6],
        vec![0, 0],
        vec![-1, -2],
        vec![0, -1],
        vec![9_000_000_000, 8_999_999_999],
    ];
    for time in times {
        let shape = Shape(vec![UNIT; time.len()]);
        let time = Shape(time.iter().map(|x| x * UNIT).collect());
        assert_eq!(
            expand_shape(&shape, &time).err(),
            Some(ConversionError::TimeShapeNonIncreasing)
        );
    }
}

fn library() -> ShapeLib {
    let mut shapes = HashMap::new();
    shapes.insert(1, Arc::new(Shape(vec![0, UNIT])));
    shapes.insert(2, Arc::new(Shape(vec![0, 4 * UNIT])));
    shapes.insert(3, Arc::new(Shape(vec![UNIT])));
    ShapeLib::new(shapes).unwrap()
}

#[test]
fn store_hands_out_what_it_holds() {
    let mut lib = library();
    let plain = lib.get(1, 0).unwrap();
    assert_eq!(plain.0, vec![0, UNIT]);
    assert!(Arc::ptr_eq(&plain, &lib.get(1, 0).unwrap()));
    let expanded = lib.get(1, 2).unwrap();
    assert_eq!(expanded.0, vec![UNIT / 8, 3 * UNIT / 8, 5 * UNIT / 8, 7 * UNIT / 8]);
    assert!(Arc::ptr_eq(&expanded, &lib.get(1, 2).unwrap()));
    assert!(!Arc::ptr_eq(&expanded, &lib.get(2, 2).unwrap()));
    assert_eq!(lib.get(2, 2).unwrap().0.len(), 4);
}

#[test]
fn store_names_what_it_lacks() {
    let mut lib = library();
    assert_eq!(lib.get(9, 0).err(), Some(ConversionError::ShapeNotFound(9)));
    assert_eq!(lib.get(9, 8).err(), Some(ConversionError::ShapeNotFound(9)));
    assert_eq!(lib.get(1, 8).err(), Some(ConversionError::ShapeNotFound(8)));
    assert_eq!(lib.get(0, 0).err(), Some(ConversionError::ShapeNotFound(0)));
    assert_eq!(
        lib.get(3, 1).err(),
        Some(ConversionError::TimeShapeMismatch { shape_len: 1, time_len: 2 })
    );
    // A failed expansion is not kept: it fails again.
    assert_eq!(
        lib.get(3, 1).err(),
        Some(ConversionError::TimeShapeMismatch { shape_len: 1, time_len: 2 })
    );
}

#[test]
fn store_refuses_the_identifier_zero() {
    let mut shapes = HashMap::new();
    shapes.insert(0, Arc::new(Shape(vec![])));
    shapes.insert(1, Arc::new(Shape(vec![])));
    assert_eq!(ShapeLib::new(shapes).err(), Some(ConversionError::ShapeIndexZero));
    assert!(ShapeLib::new(HashMap::new()).is_ok());
}
