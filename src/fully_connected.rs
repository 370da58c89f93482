//! A fully connected (affine) layer: `input * weights + bias`.
use vstd::prelude::*;

use crate::error::NnError;
use crate::matrix::{
    self, column_of, combined, dot_of, mapped, multiply_check, row_of, valid_shape, words_of, Matrix,
};

verus! {

/// An affine layer from `weights.rows` inputs to `weights.columns` outputs.
pub struct FullyConnected {
    pub weights: Matrix,
    pub bias: Matrix,
}

impl FullyConnected {
    /// The weights map the inputs to the outputs, and the bias is one row with a value
    /// per output.
    pub open spec fn wf(&self) -> bool {
        &&& self.weights.wf()
        &&& self.bias.wf()
        &&& self.bias.rows == 1
        &&& self.bias.columns == self.weights.columns
    }
}

impl Clone for FullyConnected {
    fn clone(&self) -> (r: Self)
        ensures
            r.weights.same(&self.weights),
            r.bias.same(&self.bias),
    {
        FullyConnected { weights: self.weights.clone(), bias: self.bias.clone() }
    }
}

/// Builds a layer from `inputs` to `outputs` whose weights and bias are all `+0.0`.
/// Fails with `InvalidShape` when a size is zero or the weight matrix cannot be
/// addressed.
pub fn new(inputs: usize, outputs: usize) -> (r: Result<FullyConnected, NnError>)
    ensures
        valid_shape(inputs as int, outputs as int) ==> (r matches Ok(l) && l.wf()
            && l.weights.is_zeros(inputs as nat, outputs as nat) && l.bias.is_zeros(
            1,
            outputs as nat,
        )),
        !valid_shape(inputs as int, outputs as int) ==> r == Err::<FullyConnected, NnError>(
            NnError::InvalidShape,
        ),
{
    let weights = match matrix::new(inputs, outputs) {
        Ok(m) => m,
        Err(e) => {
            return Err(e);
        },
    };
    proof {
        assert(1 * (outputs as int) <= usize::MAX);
    }
    let bias = match matrix::new(1, outputs) {
        Ok(m) => m,
        Err(e) => {
            return Err(e);
        },
    };
    Ok(FullyConnected { weights, bias })
}

/// Reads a layer of `a`'s shape from the persisted forms of its weights and its bias.
/// Fails with `SizeMismatch` unless each buffer holds four bytes per element.
pub fn load(a: &FullyConnected, weights: &[u8], bias: &[u8]) -> (r: Result<
    FullyConnected,
    NnError,
>)
    requires
        a.wf(),
    ensures
        weights@.len() == 4 * a.weights.value@.len() && bias@.len() == 4 * a.bias.value@.len()
            ==> (r matches Ok(l) && l.wf() && l.weights.rows == a.weights.rows
            && l.weights.columns == a.weights.columns && words_of(weights@, l.weights.value@)
            && l.bias.rows == a.bias.rows && l.bias.columns == a.bias.columns && words_of(
            bias@,
            l.bias.value@,
        )),
        !(weights@.len() == 4 * a.weights.value@.len() && bias@.len() == 4
            * a.bias.value@.len()) ==> r == Err::<FullyConnected, NnError>(NnError::SizeMismatch),
{
    let w = match matrix::from_bytes(&a.weights, weights) {
        Ok(m) => m,
        Err(e) => {
            return Err(e);
        },
    };
    let b = match matrix::from_bytes(&a.bias, bias) {
        Ok(m) => m,
        Err(e) => {
            return Err(e);
        },
    };
    Ok(FullyConnected { weights: w, bias: b })
}

/// Builds a layer from `inputs` to `outputs` whose weights and bias are drawn by
/// `sample`, weights first, each in buffer order (independent standard-normal values,
/// for a random start). Fails with `InvalidShape` as `new` does.
pub fn new_gaussian_noise<F: Fn() -> u32>(inputs: usize, outputs: usize, sample: &F) -> (r: Result<
    FullyConnected,
    NnError,
>)
    requires
        sample.requires(()),
    ensures
        valid_shape(inputs as int, outputs as int) ==> (r matches Ok(l) && layer_sampled(
            l,
            inputs as nat,
            outputs as nat,
            *sample,
        )),
        !valid_shape(inputs as int, outputs as int) ==> r == Err::<FullyConnected, NnError>(
            NnError::InvalidShape,
        ),
{
    let weights = match matrix::new_gaussian_noise(inputs, outputs, sample) {
        Ok(m) => m,
        Err(e) => {
            return Err(e);
        },
    };
    proof {
        assert(1 * (outputs as int) <= usize::MAX);
    }
    let bias = match matrix::new_gaussian_noise(1, outputs, sample) {
        Ok(m) => m,
        Err(e) => {
            return Err(e);
        },
    };
    Ok(FullyConnected { weights, bias })
}

/// Combines the parameters of two layers element by element with `op` (single-precision
/// addition, for the sum of two layers). Fails with `ShapeMismatch` unless the weights
/// have the same shape.
pub fn add<F: Fn(u32, u32) -> u32>(a: &FullyConnected, b: &FullyConnected, op: &F) -> (r: Result<
    FullyConnected,
    NnError,
>)
    requires
        a.wf(),
        b.wf(),
        forall|x: u32, y: u32| op.requires((x, y)),
    ensures
        a.weights.rows != b.weights.rows || a.weights.columns != b.weights.columns ==> r == Err::<
            FullyConnected,
            NnError,
        >(NnError::ShapeMismatch),
        a.weights.rows == b.weights.rows && a.weights.columns == b.weights.columns ==> (r matches Ok(
            l,
        ) && layers_combined(l, *a, *b, *op)),
{
    let weights = match matrix::add(&a.weights, &b.weights, op) {
        Ok(m) => m,
        Err(e) => {
            return Err(e);
        },
    };
    let bias = match matrix::add(&a.bias, &b.bias, op) {
        Ok(m) => m,
        Err(e) => {
            return Err(e);
        },
    };
    Ok(FullyConnected { weights, bias })
}

/// Applies `op` to every weight and bias value (a single-precision product with a
/// scalar, for scaling a layer).
pub fn scalar<F: Fn(u32) -> u32>(a: &FullyConnected, op: &F) -> (r: FullyConnected)
    requires
        a.wf(),
        forall|x: u32| op.requires((x,)),
    ensures
        layer_mapped(r, *a, *op),
{
    FullyConnected { weights: matrix::map(&a.weights, op), bias: matrix::map(&a.bias, op) }
}

/// Why `feedforward` refuses its input: as `multiply_check` sets out for the input and
/// the weights, else `ShapeMismatch` unless the input is a single row.
pub open spec fn feedforward_check(l: FullyConnected, input: Matrix) -> Result<(), NnError> {
    match multiply_check(input, l.weights) {
        Err(e) => Err(e),
        Ok(_) => if input.rows == 1 {
            Ok(())
        } else {
            Err(NnError::ShapeMismatch)
        },
    }
}

/// `y` is what `sum` returns for some `dot` of `row` and `column`, with `bias`.
pub open spec fn affine_response<D: Fn(Vec<u32>, Vec<u32>) -> u32, S: Fn(u32, u32) -> u32>(
    dot: D,
    sum: S,
    row: Seq<u32>,
    column: Seq<u32>,
    bias: u32,
    y: u32,
) -> bool {
    exists|x: u32| #[trigger] dot_of(dot, row, column, x) && sum.ensures((x, bias), y)
}

/// The layer's output for one input row: `input * weights + bias`, each output the `dot`
/// of the input with a column of the weights, combined with its bias by `sum`
/// (single-precision dot product and addition, for the affine map). Fails as
/// `feedforward_check` sets out.
pub fn feedforward<D: Fn(Vec<u32>, Vec<u32>) -> u32, S: Fn(u32, u32) -> u32>(
    l: &FullyConnected,
    input: &Matrix,
    dot: &D,
    sum: &S,
) -> (r: Result<Matrix, NnError>)
    requires
        l.wf(),
        input.wf(),
        forall|x: Vec<u32>, y: Vec<u32>| dot.requires((x, y)),
        forall|x: u32, y: u32| sum.requires((x, y)),
    ensures
        feedforward_check(*l, *input) matches Err(e) ==> r == Err::<Matrix, NnError>(e),
        feedforward_check(*l, *input) is Ok ==> (r matches Ok(m) && m.wf() && m.rows == 1
            && m.columns == l.weights.columns && forall|j: int|
            0 <= j < m.columns ==> affine_response(
                *dot,
                *sum,
                row_of(*input, 0),
                column_of(l.weights, j),
                l.bias.value@[j],
                #[trigger] m.value@[j],
            )),
{
    let responses = match matrix::multiply(input, &l.weights, dot) {
        Ok(m) => m,
        Err(e) => {
            return Err(e);
        },
    };
    let out = match matrix::add(&responses, &l.bias, sum) {
        Ok(m) => m,
        Err(e) => {
            return Err(e);
        },
    };
    proof {
        assert forall|j: int| 0 <= j < out.columns implies affine_response(
            *dot,
            *sum,
            row_of(*input, 0),
            column_of(l.weights, j),
            l.bias.value@[j],
            #[trigger] out.value@[j],
        ) by {
            assert(responses.rows == 1);
            assert(j * responses.rows == j) by (nonlinear_arith)
                requires
                    responses.rows == 1,
            ;
            assert(responses.at(0, j) == responses.value@[j]);
            assert(dot_of(*dot, row_of(*input, 0), column_of(l.weights, j), responses.at(0, j)));
        }
    }
    Ok(out)
}

/// The weights of `a` and `b` have the same shape.
pub open spec fn same_shape(a: FullyConnected, b: FullyConnected) -> bool {
    a.weights.rows == b.weights.rows && a.weights.columns == b.weights.columns
}

/// `l` is `a` and `b` combined element by element with `op`.
pub open spec fn layers_combined<F: Fn(u32, u32) -> u32>(
    l: FullyConnected,
    a: FullyConnected,
    b: FullyConnected,
    op: F,
) -> bool {
    l.wf() && combined(l.weights, a.weights, b.weights, op) && combined(l.bias, a.bias, b.bias, op)
}

/// `l` is `a` with `op` applied to every parameter.
pub open spec fn layer_mapped<F: Fn(u32) -> u32>(l: FullyConnected, a: FullyConnected, op: F) -> bool {
    l.wf() && mapped(l.weights, a.weights, op) && mapped(l.bias, a.bias, op)
}

/// `l` is a layer from `inputs` to `outputs` whose parameters `sample` can all return.
pub open spec fn layer_sampled<F: Fn() -> u32>(
    l: FullyConnected,
    inputs: nat,
    outputs: nat,
    sample: F,
) -> bool {
    &&& l.wf()
    &&& l.weights.rows == inputs
    &&& l.weights.columns == outputs
    &&& forall|k: int|
        0 <= k < l.weights.value@.len() ==> sample.ensures((), #[trigger] l.weights.value@[k])
    &&& forall|k: int| 0 <= k < l.bias.value@.len() ==> sample.ensures((), #[trigger] l.bias.value@[k])
}

} // verus!
