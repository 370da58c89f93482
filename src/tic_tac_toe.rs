//! A model for tic-tac-toe positions: three `3×3` convolutions over a three-channel
//! board, then two fully connected layers down to one score per square.
use vstd::prelude::*;

use crate::conv2d::{self, Conv2D};
use crate::matrix::valid_shape;
use crate::error::NnError;
use crate::fully_connected::{self, FullyConnected};

verus! {

/// The layers of the model.
pub struct TicTacToe {
    pub conv1: Conv2D,
    pub conv2: Conv2D,
    pub conv3: Conv2D,
    pub fc1: FullyConnected,
    pub fc2: FullyConnected,
}

/// A `3×3` convolution layer with every parameter `+0.0`.
fn zero_conv(num_channels: usize, num_filters: usize) -> (r: Conv2D)
    requires
        1 <= num_channels <= 64,
        1 <= num_filters <= 64,
    ensures
        r.wf(),
        r.num_channels == num_channels,
        r.num_filters == num_filters,
        r.filter_size == (3usize, 3usize),
        r.filters.is_zeros(num_filters as nat, 9 * num_channels as nat),
        r.bias.is_zeros(1, num_filters as nat),
{
    assert(num_filters * (3 * 3 * num_channels) <= 64 * 576) by (nonlinear_arith)
        requires
            1 <= num_channels <= 64,
            1 <= num_filters <= 64,
    ;
    match conv2d::new(num_channels, num_filters, (3, 3)) {
        Ok(c) => c,
        Err(_) => {
            proof {
                assert(false);
            }
            unreached()
        },
    }
}

/// A fully connected layer with every parameter `+0.0`.
fn zero_fc(inputs: usize, outputs: usize) -> (r: FullyConnected)
    requires
        1 <= inputs <= 576,
        1 <= outputs <= 100,
    ensures
        r.wf(),
        r.weights.is_zeros(inputs as nat, outputs as nat),
        r.bias.is_zeros(1, outputs as nat),
{
    assert(inputs * outputs <= 576 * 100) by (nonlinear_arith)
        requires
            1 <= inputs <= 576,
            1 <= outputs <= 100,
    ;
    match fully_connected::new(inputs, outputs) {
        Ok(l) => l,
        Err(_) => {
            proof {
                assert(false);
            }
            unreached()
        },
    }
}

/// The model with every parameter `+0.0`: convolutions from 3 to 64, 64 and 64
/// channels, then 576 to 100 to 9 units.
pub fn new() -> (r: TicTacToe)
    ensures
        r.conv1.wf() && r.conv1.num_channels == 3 && r.conv1.num_filters == 64,
        r.conv2.wf() && r.conv2.num_channels == 64 && r.conv2.num_filters == 64,
        r.conv3.wf() && r.conv3.num_channels == 64 && r.conv3.num_filters == 64,
        r.conv1.filters.is_zeros(64, 27) && r.conv1.bias.is_zeros(1, 64),
        r.conv2.filters.is_zeros(64, 576) && r.conv2.bias.is_zeros(1, 64),
        r.conv3.filters.is_zeros(64, 576) && r.conv3.bias.is_zeros(1, 64),
        r.fc1.wf() && r.fc1.weights.is_zeros(576, 100) && r.fc1.bias.is_zeros(1, 100),
        r.fc2.wf() && r.fc2.weights.is_zeros(100, 9) && r.fc2.bias.is_zeros(1, 9),
{
    TicTacToe {
        conv1: zero_conv(3, 64),
        conv2: zero_conv(64, 64),
        conv3: zero_conv(64, 64),
        fc1: zero_fc(576, 100),
        fc2: zero_fc(100, 9),
    }
}

/// A `3×3` convolution layer with every parameter drawn by `sample`.
fn random_conv<F: Fn() -> u32>(num_channels: usize, num_filters: usize, sample: &F) -> (r: Conv2D)
    requires
        1 <= num_channels <= 64,
        1 <= num_filters <= 64,
        sample.requires(()),
    ensures
        r.wf(),
        r.num_channels == num_channels,
        r.num_filters == num_filters,
        r.filter_size == (3usize, 3usize),
        conv2d::sampled(r.filters, *sample),
        conv2d::sampled(r.bias, *sample),
{
    assert(num_filters * (3 * 3 * num_channels) <= 64 * 576) by (nonlinear_arith)
        requires
            1 <= num_channels <= 64,
            1 <= num_filters <= 64,
    ;
    assert(conv2d::filter_len((3usize, 3usize), num_channels) == 9 * num_channels);
    assert(valid_shape(num_filters as int, conv2d::filter_len((3usize, 3usize), num_channels)));
    match conv2d::new_gaussian_noise(num_channels, num_filters, (3, 3), sample) {
        Ok(c) => c,
        Err(_) => {
            proof {
                assert(false);
            }
            unreached()
        },
    }
}

/// A fully connected layer with every parameter drawn by `sample`.
fn random_fc<F: Fn() -> u32>(inputs: usize, outputs: usize, sample: &F) -> (r: FullyConnected)
    requires
        1 <= inputs <= 576,
        1 <= outputs <= 100,
        sample.requires(()),
    ensures
        fully_connected::layer_sampled(r, inputs as nat, outputs as nat, *sample),
{
    assert(inputs * outputs <= 576 * 100) by (nonlinear_arith)
        requires
            1 <= inputs <= 576,
            1 <= outputs <= 100,
    ;
    match fully_connected::new_gaussian_noise(inputs, outputs, sample) {
        Ok(l) => l,
        Err(_) => {
            proof {
                assert(false);
            }
            unreached()
        },
    }
}

/// The model with every parameter drawn by `sample`, layer by layer (independent
/// standard-normal values, for a random start). The layer sizes are those of `new`.
pub fn new_gaussian_noise<F: Fn() -> u32>(sample: &F) -> (r: TicTacToe)
    requires
        sample.requires(()),
    ensures
        r.conv1.wf() && r.conv1.num_channels == 3 && r.conv1.num_filters == 64,
        r.conv2.wf() && r.conv2.num_channels == 64 && r.conv2.num_filters == 64,
        r.conv3.wf() && r.conv3.num_channels == 64 && r.conv3.num_filters == 64,
        r.conv1.filter_size == (3usize, 3usize) && r.conv2.filter_size == (3usize, 3usize)
            && r.conv3.filter_size == (3usize, 3usize),
        conv2d::sampled(r.conv1.filters, *sample) && conv2d::sampled(r.conv1.bias, *sample),
        conv2d::sampled(r.conv2.filters, *sample) && conv2d::sampled(r.conv2.bias, *sample),
        conv2d::sampled(r.conv3.filters, *sample) && conv2d::sampled(r.conv3.bias, *sample),
        fully_connected::layer_sampled(r.fc1, 576, 100, *sample),
        fully_connected::layer_sampled(r.fc2, 100, 9, *sample),
{
    TicTacToe {
        conv1: random_conv(3, 64, sample),
        conv2: random_conv(64, 64, sample),
        conv3: random_conv(64, 64, sample),
        fc1: random_fc(576, 100, sample),
        fc2: random_fc(100, 9, sample),
    }
}

/// Every layer is well formed.
pub open spec fn wf(m: TicTacToe) -> bool {
    m.conv1.wf() && m.conv2.wf() && m.conv3.wf() && m.fc1.wf() && m.fc2.wf()
}

/// The corresponding layers of `a` and `b` have parameters of the same shapes.
pub open spec fn same_shapes(a: TicTacToe, b: TicTacToe) -> bool {
    &&& conv2d::same_parameter_shapes(a.conv1, b.conv1)
    &&& conv2d::same_parameter_shapes(a.conv2, b.conv2)
    &&& conv2d::same_parameter_shapes(a.conv3, b.conv3)
    &&& fully_connected::same_shape(a.fc1, b.fc1)
    &&& fully_connected::same_shape(a.fc2, b.fc2)
}

/// Combines two models layer by layer with `op` (single-precision addition, for the sum
/// of two models). Fails with `ShapeMismatch` unless the layers have the same shapes.
pub fn add<F: Fn(u32, u32) -> u32>(a: &TicTacToe, b: &TicTacToe, op: &F) -> (r: Result<
    TicTacToe,
    NnError,
>)
    requires
        wf(*a),
        wf(*b),
        forall|x: u32, y: u32| op.requires((x, y)),
    ensures
        !same_shapes(*a, *b) ==> r == Err::<TicTacToe, NnError>(NnError::ShapeMismatch),
        same_shapes(*a, *b) ==> (r matches Ok(m) && conv2d::layers_combined(
            m.conv1,
            a.conv1,
            b.conv1,
            *op,
        ) && conv2d::layers_combined(m.conv2, a.conv2, b.conv2, *op) && conv2d::layers_combined(
            m.conv3,
            a.conv3,
            b.conv3,
            *op,
        ) && fully_connected::layers_combined(m.fc1, a.fc1, b.fc1, *op)
            && fully_connected::layers_combined(m.fc2, a.fc2, b.fc2, *op)),
{
    let conv1 = match conv2d::add(&a.conv1, &b.conv1, op) {
        Ok(c) => c,
        Err(e) => {
            return Err(e);
        },
    };
    let conv2 = match conv2d::add(&a.conv2, &b.conv2, op) {
        Ok(c) => c,
        Err(e) => {
            return Err(e);
        },
    };
    let conv3 = match conv2d::add(&a.conv3, &b.conv3, op) {
        Ok(c) => c,
        Err(e) => {
            return Err(e);
        },
    };
    let fc1 = match fully_connected::add(&a.fc1, &b.fc1, op) {
        Ok(l) => l,
        Err(e) => {
            return Err(e);
        },
    };
    let fc2 = match fully_connected::add(&a.fc2, &b.fc2, op) {
        Ok(l) => l,
        Err(e) => {
            return Err(e);
        },
    };
    Ok(TicTacToe { conv1, conv2, conv3, fc1, fc2 })
}

/// Applies `op` to every parameter (a single-precision product with a scalar, for
/// scaling a model).
pub fn scalar<F: Fn(u32) -> u32>(a: &TicTacToe, op: &F) -> (r: TicTacToe)
    requires
        wf(*a),
        forall|x: u32| op.requires((x,)),
    ensures
        conv2d::layer_mapped(r.conv1, a.conv1, *op),
        conv2d::layer_mapped(r.conv2, a.conv2, *op),
        conv2d::layer_mapped(r.conv3, a.conv3, *op),
        fully_connected::layer_mapped(r.fc1, a.fc1, *op),
        fully_connected::layer_mapped(r.fc2, a.fc2, *op),
{
    TicTacToe {
        conv1: conv2d::scalar(&a.conv1, op),
        conv2: conv2d::scalar(&a.conv2, op),
        conv3: conv2d::scalar(&a.conv3, op),
        fc1: fully_connected::scalar(&a.fc1, op),
        fc2: fully_connected::scalar(&a.fc2, op),
    }
}

} // verus!
