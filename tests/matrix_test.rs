use rand::Rng;
use nnet::error::NnError;
use nnet::matrix;

fn bits_of(values: &[f32]) -> Vec<u32> {
    values.iter().map(|v| v.to_bits()).collect()
}

#[test]
fn new_test() {
    let a = matrix::new(2, 3).unwrap();

    assert_eq!(a.rows, 2);
    assert_eq!(a.columns, 3);
    assert_eq!(a.value, bits_of(&[0.0, 0.0, 0.0, 0.0, 0.0, 0.0]));
}

#[test]
fn new_fills_every_shape_with_zeros() {
    for rows in 1..6usize {
        for columns in 1..6usize {
            let a = matrix::new(rows, columns).unwrap();
            assert_eq!(a.rows, rows);
            assert_eq!(a.columns, columns);
            assert_eq!(a.value.len(), rows * columns);
            assert!(a.value.iter().all(|v| f32::from_bits(*v) == 0.0));
        }
    }
}

#[test]
fn new_rejects_zero_dimensions() {
    assert!(matches!(matrix::new(0, 3), Err(NnError::InvalidShape)));
    assert!(matches!(matrix::new(3, 0), Err(NnError::InvalidShape)));
    assert!(matches!(matrix::new(0, 0), Err(NnError::InvalidShape)));
}

#[test]
fn new_rejects_unaddressable_shapes() {
    assert!(matches!(matrix::new(usize::MAX, 2), Err(NnError::InvalidShape)));
}

#[test]
fn save_load_test() {
    let mut a = matrix::new(2, 3).unwrap();
    a.value = bits_of(&[3.987, 4.123, -5.245, 6.78, 9.32, -5.47]);

    let bytes = matrix::to_bytes(&a);
    let b = matrix::from_bytes(&a, &bytes).unwrap();

    assert_eq!(b.rows, 2);
    assert_eq!(b.columns, 3);
    assert_eq!(b.value, bits_of(&[3.987, 4.123, -5.245, 6.78, 9.32, -5.47]));
}

#[test]
fn to_bytes_writes_little_endian_words() {
    let mut a = matrix::new(1, 2).unwrap();
    a.value = bits_of(&[1.0, -2.5]);

    let bytes = matrix::to_bytes(&a);

    let mut expected = Vec::new();
    expected.extend_from_slice(&1.0f32.to_le_bytes());
    expected.extend_from_slice(&(-2.5f32).to_le_bytes());
    assert_eq!(bytes, expected);
    assert_eq!(bytes, vec![0, 0, 128, 63, 0, 0, 32, 192]);
}

#[test]
fn from_bytes_reads_template_shape() {
    let template = matrix::new(3, 1).unwrap();
    let bytes = vec![0, 0, 128, 63, 0, 0, 0, 64, 0, 0, 64, 64];

    let m = matrix::from_bytes(&template, &bytes).unwrap();

    assert_eq!(m.rows, 3);
    assert_eq!(m.columns, 1);
    assert_eq!(m.value, bits_of(&[1.0, 2.0, 3.0]));
}

#[test]
fn from_bytes_rejects_wrong_length() {
    let template = matrix::new(2, 2).unwrap();
    assert!(matches!(matrix::from_bytes(&template, &[0u8; 15]), Err(NnError::SizeMismatch)));
    assert!(matches!(matrix::from_bytes(&template, &[0u8; 12]), Err(NnError::SizeMismatch)));
    assert!(matches!(matrix::from_bytes(&template, &[0u8; 20]), Err(NnError::SizeMismatch)));
    assert!(matches!(matrix::from_bytes(&template, &[]), Err(NnError::SizeMismatch)));
}

#[test]
fn bytes_round_trip_keeps_every_bit_pattern() {
    let mut a = matrix::new(2, 2).unwrap();
    a.value = vec![0x7fc0_0001, 0x8000_0000, 0xffff_ffff, 0x0000_0001];

    let bytes = matrix::to_bytes(&a);
    let template = matrix::new(4, 1).unwrap();
    let b = matrix::from_bytes(&template, &bytes).unwrap();

    assert_eq!(b.value, a.value);
    assert_eq!(b.rows, 4);
    assert_eq!(b.columns, 1);
}

#[test]
fn clone_copies_shape_and_values() {
    let mut a = matrix::new(2, 1).unwrap();
    a.value = bits_of(&[1.5, -3.0]);
    let b = a.clone();
    assert_eq!(b.rows, 2);
    assert_eq!(b.columns, 1);
    assert_eq!(b.value, a.value);
}

fn float_sum(x: u32, y: u32) -> u32 {
    (f32::from_bits(x) + f32::from_bits(y)).to_bits()
}

fn float_dot(row: Vec<u32>, column: Vec<u32>) -> u32 {
    let mut acc: f32 = 0.0;
    for (x, y) in row.iter().zip(column.iter()) {
        acc += f32::from_bits(*x) * f32::from_bits(*y);
    }
    acc.to_bits()
}

fn standard_normal() -> u32 {
    rand::thread_rng().sample::<f32, _>(rand_distr::StandardNormal).to_bits()
}

#[test]
fn new_gaussian_noise_test() {
    let a = matrix::new_gaussian_noise(2, 3, &standard_normal).unwrap();

    assert_eq!(a.rows, 2);
    assert_eq!(a.columns, 3);
    assert_ne!(a.value, bits_of(&[0.0, 0.0, 0.0, 0.0, 0.0, 0.0]));
}

#[test]
fn new_gaussian_noise_fills_in_buffer_order() {
    let next = std::cell::Cell::new(0u32);
    let counter = || {
        next.set(next.get() + 1);
        next.get()
    };
    let a = matrix::new_gaussian_noise(2, 2, &counter).unwrap();
    assert_eq!(a.value, vec![1, 2, 3, 4]);
    assert!(matches!(matrix::new_gaussian_noise(0, 2, &counter), Err(NnError::InvalidShape)));
}

#[test]
fn multiply_test() {
    let mut a = matrix::new(2, 3).unwrap();
    let mut b = matrix::new(3, 3).unwrap();
    a.value = bits_of(&[4.0, 6.0, 1.0, 9.0, 7.0, 3.0]);
    b.value = bits_of(&[2.0, 8.0, 3.0, 3.0, 2.0, 8.0, 7.0, 2.0, 9.0]);

    let c = matrix::multiply(&a, &b, &float_dot).unwrap();
    assert_eq!(c.rows, 2);
    assert_eq!(c.columns, 3);
    assert_eq!(c.value, bits_of(&[37.0, 93.0, 70.0, 60.0, 93.0, 87.0]));
}

#[test]
fn multiply_panic_test() {
    let mut a = matrix::new(2, 3).unwrap();
    let mut b = matrix::new(3, 3).unwrap();
    a.value = bits_of(&[4.0, 6.0, 1.0, 9.0, 7.0, 3.0]);
    b.value = bits_of(&[2.0, 8.0, 3.0, 3.0, 2.0, 8.0, 7.0, 2.0, 9.0]);
    assert!(matches!(matrix::multiply(&b, &a, &float_dot), Err(NnError::ShapeMismatch)));
}

#[test]
fn multiply_hands_rows_and_columns_to_dot() {
    let mut a = matrix::new(2, 2).unwrap();
    a.value = vec![1, 2, 3, 4]; // rows (1, 3) and (2, 4)
    let mut b = matrix::new(2, 1).unwrap();
    b.value = vec![5, 6];
    let first = |row: Vec<u32>, column: Vec<u32>| row[0] * 100 + column[1];
    let c = matrix::multiply(&a, &b, &first).unwrap();
    assert_eq!(c.value, vec![106, 206]);
}

#[test]
fn add_test() {
    let mut a = matrix::new(2, 3).unwrap();
    let mut b = matrix::new(2, 3).unwrap();
    a.value = bits_of(&[4.0, 6.0, 1.0, 9.0, 7.0, 3.0]);
    b.value = bits_of(&[2.0, 8.0, 3.0, 3.0, 2.0, 8.0]);

    let c = matrix::add(&a, &b, &float_sum).unwrap();
    assert_eq!(c.rows, 2);
    assert_eq!(c.columns, 3);
    assert_eq!(c.value, bits_of(&[6.0, 14.0, 4.0, 12.0, 9.0, 11.0]));
}

#[test]
fn add_panic_test() {
    let mut a = matrix::new(2, 3).unwrap();
    let mut b = matrix::new(2, 2).unwrap();
    a.value = bits_of(&[4.0, 6.0, 1.0, 9.0, 7.0, 3.0]);
    b.value = bits_of(&[2.0, 8.0, 3.0, 3.0]);

    assert!(matches!(matrix::add(&a, &b, &float_sum), Err(NnError::ShapeMismatch)));
}

#[test]
fn add_of_negation_is_zero() {
    let mut a = matrix::new(2, 2).unwrap();
    a.value = bits_of(&[1.5, -2.25, 3.0, 0.125]);
    let negated = matrix::map(&a, &|x: u32| (f32::from_bits(x) * -1.0).to_bits());
    let c = matrix::add(&a, &negated, &float_sum).unwrap();
    assert!(c.value.iter().all(|v| f32::from_bits(*v) == 0.0));
}

#[test]
fn scalar_test() {
    let mut a = matrix::new(2, 3).unwrap();
    a.value = bits_of(&[4.0, 6.0, 1.0, 9.0, 7.0, 3.0]);

    let b = matrix::map(&a, &|x: u32| (f32::from_bits(x) * 1.3).to_bits());
    assert_eq!(b.rows, 2);
    assert_eq!(b.columns, 3);
    assert_eq!(
        b.value,
        bits_of(&[4.0 * 1.3, 6.0 * 1.3, 1.0 * 1.3, 9.0 * 1.3, 7.0 * 1.3, 3.0 * 1.3])
    );
}

#[test]
fn element_wise_add_test() {
    let mut a = matrix::new(2, 3).unwrap();
    a.value = bits_of(&[4.0, 6.0, 1.0, 9.0, 7.0, 3.0]);

    let e: f32 = 5.0;
    let b = matrix::map(&a, &|x: u32| (f32::from_bits(x) + e).to_bits());
    assert_eq!(b.rows, 2);
    assert_eq!(b.columns, 3);
    assert_eq!(b.value, bits_of(&[9.0, 11.0, 6.0, 14.0, 12.0, 8.0]));
}

#[test]
fn scale_commutes_with_multiply() {
    let mut a = matrix::new(2, 2).unwrap();
    let mut b = matrix::new(2, 2).unwrap();
    a.value = bits_of(&[1.0, 2.0, 3.0, 4.0]);
    b.value = bits_of(&[5.0, 6.0, 7.0, 8.0]);
    let times_two = |x: u32| (f32::from_bits(x) * 2.0).to_bits();
    let left = matrix::map(&matrix::multiply(&a, &b, &float_dot).unwrap(), &times_two);
    let middle = matrix::multiply(&matrix::map(&a, &times_two), &b, &float_dot).unwrap();
    let right = matrix::multiply(&a, &matrix::map(&b, &times_two), &float_dot).unwrap();
    assert_eq!(left.value, middle.value);
    assert_eq!(left.value, right.value);
}
