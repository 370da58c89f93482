use rand::Rng;
use nnet::conv2d;
use nnet::error::NnError;
use nnet::fully_connected;
use nnet::matrix;
use nnet::no_activation;
use nnet::res2d;
use nnet::tic_tac_toe;
use nnet::xor;

fn bits(values: &[f32]) -> Vec<u32> {
    values.iter().map(|v| v.to_bits()).collect()
}

#[test]
fn fully_connected_new_test() {
    let a = fully_connected::new(2, 4).unwrap();

    assert_eq!(a.weights.rows, 2);
    assert_eq!(a.weights.columns, 4);
    assert_eq!(a.bias.rows, 1);
    assert_eq!(a.bias.columns, 4);
    assert_eq!(a.weights.value, bits(&[0.0, 0.0, 0.0, 0.0, 0.0, 0.0, 0.0, 0.0]));
    assert_eq!(a.bias.value, bits(&[0.0, 0.0, 0.0, 0.0]));
}

#[test]
fn fully_connected_new_rejects_zero_sizes() {
    assert!(matches!(fully_connected::new(0, 4), Err(NnError::InvalidShape)));
    assert!(matches!(fully_connected::new(4, 0), Err(NnError::InvalidShape)));
}

#[test]
fn fully_connected_load_test() {
    let mut a = fully_connected::new(2, 3).unwrap();
    a.weights.value = bits(&[1.0, 3.0, 4.0, -5.0, 2.0, -9.0]);
    a.bias.value = bits(&[1.0, 2.0, -4.0]);
    let weights = matrix::to_bytes(&a.weights);
    let bias = matrix::to_bytes(&a.bias);

    let template = fully_connected::new(2, 3).unwrap();
    let b = fully_connected::load(&template, &weights, &bias).unwrap();

    assert_eq!(b.weights.rows, 2);
    assert_eq!(b.weights.columns, 3);
    assert_eq!(b.bias.rows, 1);
    assert_eq!(b.bias.columns, 3);
    assert_eq!(b.weights.value, bits(&[1.0, 3.0, 4.0, -5.0, 2.0, -9.0]));
    assert_eq!(b.bias.value, bits(&[1.0, 2.0, -4.0]));

    assert!(matches!(
        fully_connected::load(&template, &weights, &weights),
        Err(NnError::SizeMismatch)
    ));
}

#[test]
fn xor_new_is_all_zeros() {
    let m = xor::new();
    assert_eq!((m.fc1.weights.rows, m.fc1.weights.columns), (2, 10));
    assert_eq!((m.fc2.weights.rows, m.fc2.weights.columns), (10, 2));
    assert_eq!(m.fc1.bias.columns, 10);
    assert_eq!(m.fc2.bias.columns, 2);
    assert!(m.fc1.weights.value.iter().all(|v| *v == 0));
    assert!(m.fc2.bias.value.iter().all(|v| *v == 0));
}

#[test]
fn tic_tac_toe_new_has_the_documented_layers() {
    let m = tic_tac_toe::new();
    assert_eq!((m.conv1.num_channels, m.conv1.num_filters), (3, 64));
    assert_eq!((m.conv2.num_channels, m.conv2.num_filters), (64, 64));
    assert_eq!((m.conv3.num_channels, m.conv3.num_filters), (64, 64));
    assert_eq!(m.conv1.filter_size, (3, 3));
    assert_eq!((m.conv1.filters.rows, m.conv1.filters.columns), (64, 27));
    assert_eq!((m.conv2.filters.rows, m.conv2.filters.columns), (64, 576));
    assert_eq!((m.fc1.weights.rows, m.fc1.weights.columns), (576, 100));
    assert_eq!((m.fc2.weights.rows, m.fc2.weights.columns), (100, 9));
    assert!(m.conv3.filters.value.iter().all(|v| *v == 0));
}

#[test]
fn res2d_new_copies_its_parts() {
    let mut first = conv2d::new(1, 1, (1, 1)).unwrap();
    first.filters.value = bits(&[2.0]);
    let last = conv2d::new(1, 1, (1, 1)).unwrap();
    let strides = [(1, 1), (1, 1)];
    let padding = [(0, 0, 0, 0), (1, 1, 1, 1)];

    let block = res2d::new(&[first], &last, &strides, &padding, no_activation::new());

    assert_eq!(block.layers.len(), 1);
    assert_eq!(block.layers[0].filters.value, bits(&[2.0]));
    assert_eq!(block.last_layer.filters.value, bits(&[0.0]));
    assert_eq!(block.strides, vec![(1, 1), (1, 1)]);
    assert_eq!(block.padding, vec![(0, 0, 0, 0), (1, 1, 1, 1)]);
}

fn add_floats(x: u32, y: u32) -> u32 {
    (f32::from_bits(x) + f32::from_bits(y)).to_bits()
}

fn dot_floats(row: Vec<u32>, column: Vec<u32>) -> u32 {
    let mut acc: f32 = 0.0;
    for (x, y) in row.iter().zip(column.iter()) {
        acc += f32::from_bits(*x) * f32::from_bits(*y);
    }
    acc.to_bits()
}

fn gaussian() -> u32 {
    rand::thread_rng().sample::<f32, _>(rand_distr::StandardNormal).to_bits()
}

#[test]
fn fully_connected_new_gaussian_noise_test() {
    let a = fully_connected::new_gaussian_noise(2, 4, &gaussian).unwrap();

    assert_eq!(a.weights.rows, 2);
    assert_eq!(a.weights.columns, 4);
    assert_eq!(a.bias.rows, 1);
    assert_eq!(a.bias.columns, 4);
    assert_ne!(a.weights.value, bits(&[0.0, 0.0, 0.0, 0.0, 0.0, 0.0, 0.0, 0.0]));
    assert_ne!(a.bias.value, bits(&[0.0, 0.0, 0.0, 0.0]));
}

#[test]
fn fully_connected_feedforward_test() {
    let mut a = fully_connected::new(2, 4).unwrap();
    a.weights.value = bits(&[2.0, 3.0, -4.0, 5.0, -7.0, 8.0, -1.0, 2.0]);
    a.bias.value = bits(&[1.0, -1.0, -2.0, 1.0]);

    let mut input = matrix::new(1, 2).unwrap();
    input.value = bits(&[2.0, 1.0]);

    let mut expected_output = matrix::multiply(&input, &a.weights, &dot_floats).unwrap();
    expected_output = matrix::add(&expected_output, &a.bias, &add_floats).unwrap();

    let output = fully_connected::feedforward(&a, &input, &dot_floats, &add_floats).unwrap();

    assert_eq!(output.rows, 1);
    assert_eq!(output.columns, 4);
    assert_eq!(output.value, expected_output.value);
    // 2 * 2 + 1 * 3 + 1, 2 * -4 + 1 * 5 - 1, 2 * -7 + 1 * 8 - 2, 2 * -1 + 1 * 2 + 1
    assert_eq!(output.value, bits(&[8.0, -4.0, -8.0, 1.0]));
}

#[test]
fn fully_connected_feedforward_needs_one_row() {
    let a = fully_connected::new(2, 4).unwrap();
    let input = matrix::new(2, 2).unwrap();
    assert!(matches!(
        fully_connected::feedforward(&a, &input, &dot_floats, &add_floats),
        Err(NnError::ShapeMismatch)
    ));
    let wrong = matrix::new(1, 3).unwrap();
    assert!(matches!(
        fully_connected::feedforward(&a, &wrong, &dot_floats, &add_floats),
        Err(NnError::ShapeMismatch)
    ));
}

#[test]
fn fully_connected_add_test() {
    let mut a = fully_connected::new(2, 4).unwrap();
    let mut b = fully_connected::new(2, 4).unwrap();
    a.weights.value = bits(&[1.0, 1.0, 1.0, 1.0, 1.0, 1.0, 1.0, 1.0]);
    a.bias.value = bits(&[1.0, 1.0, 1.0, 1.0]);
    b.weights.value = bits(&[1.0, 1.0, 1.0, 1.0, 1.0, 1.0, 1.0, 1.0]);
    b.bias.value = bits(&[1.0, 1.0, 1.0, 1.0]);

    let c = fully_connected::add(&a, &b, &add_floats).unwrap();
    assert_eq!(c.weights.value, bits(&[2.0, 2.0, 2.0, 2.0, 2.0, 2.0, 2.0, 2.0]));
    assert_eq!(c.bias.value, bits(&[2.0, 2.0, 2.0, 2.0]));
}

#[test]
fn fully_connected_scalar_test() {
    let mut a = fully_connected::new(2, 4).unwrap();
    a.weights.value = bits(&[1.0, 1.0, 1.0, 1.0, 1.0, 1.0, 1.0, 1.0]);
    a.bias.value = bits(&[1.0, 1.0, 1.0, 1.0]);

    let b = fully_connected::scalar(&a, &|x: u32| (f32::from_bits(x) * 2.0).to_bits());
    assert_eq!(b.weights.value, bits(&[2.0, 2.0, 2.0, 2.0, 2.0, 2.0, 2.0, 2.0]));
    assert_eq!(b.bias.value, bits(&[2.0, 2.0, 2.0, 2.0]));
}

#[test]
fn xor_add_and_scalar_combine_every_layer() {
    let a = xor::new_gaussian_noise(&gaussian);
    let doubled = xor::scalar(&a, &|x: u32| (f32::from_bits(x) * 2.0).to_bits());
    let sum = xor::add(&a, &a, &add_floats).unwrap();
    assert_eq!(sum.fc1.weights.value, doubled.fc1.weights.value);
    assert_eq!(sum.fc2.bias.value, doubled.fc2.bias.value);
}

#[test]
fn tic_tac_toe_add_keeps_layer_sizes() {
    let zero = tic_tac_toe::new();
    let noise = tic_tac_toe::new_gaussian_noise(&gaussian);
    let sum = tic_tac_toe::add(&zero, &noise, &add_floats).unwrap();
    assert_eq!(sum.conv2.filters.value, noise.conv2.filters.value);
    assert_eq!(sum.fc2.weights.columns, 9);
    let halved = tic_tac_toe::scalar(&noise, &|x: u32| (f32::from_bits(x) * 0.5).to_bits());
    assert_eq!(
        f32::from_bits(halved.fc1.bias.value[7]),
        f32::from_bits(noise.fc1.bias.value[7]) * 0.5
    );
}

#[test]
fn res2d_add_rejects_other_depths() {
    let layer = conv2d::new(1, 1, (1, 1)).unwrap();
    let one = res2d::new(&[layer.clone()], &layer, &[(1, 1), (1, 1)], &[(0, 0, 0, 0); 2], no_activation::new());
    let none = res2d::new(&[], &layer, &[(1, 1)], &[(0, 0, 0, 0)], no_activation::new());
    assert!(matches!(res2d::add(&one, &none, &add_floats), Err(NnError::ShapeMismatch)));
    let two = res2d::add(&one, &one, &add_floats).unwrap();
    assert_eq!(two.layers.len(), 1);
    let scaled = res2d::scalar(&two, &|x: u32| x);
    assert_eq!(scaled.strides, vec![(1, 1), (1, 1)]);
}
