use nnet::activations::Activate;
use nnet::matrix;
use nnet::no_activation;

fn values_of(values: &[f32]) -> Vec<u32> {
    values.iter().map(|v| v.to_bits()).collect()
}

#[test]
fn no_activation_test() {
    let na = no_activation::new();

    let mut a = matrix::new(2, 2).unwrap();
    a.value = values_of(&[1.0, 2.0, 3.0, 4.0]);

    assert!(a.rows == 2);
    assert!(a.columns == 2);
    assert!(a.value == values_of(&[1.0, 2.0, 3.0, 4.0]));

    let b = na.activate(&a);

    assert!(b.rows == 2);
    assert!(b.columns == 2);
    assert!(b.value == values_of(&[1.0, 2.0, 3.0, 4.0]));
}
