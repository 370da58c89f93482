//! A residual block: a chain of convolutions whose output is added back to its input
//! before a final activation.
use vstd::prelude::*;

use crate::conv2d::{self, layer_mapped, layers_combined, same_parameter_shapes, Conv2D};
use crate::error::NnError;

verus! {

/// The block's layers, with one stride and one padding per convolution, the last one
/// included.
pub struct Res2D<T> {
    pub layers: Vec<Conv2D>,
    pub last_layer: Conv2D,
    pub strides: Vec<(usize, usize)>,
    pub padding: Vec<(usize, usize, usize, usize)>,
    pub activation: T,
}

/// `r` holds the same parameters as `a`.
pub open spec fn same_layer(r: Conv2D, a: Conv2D) -> bool {
    &&& r.num_channels == a.num_channels
    &&& r.num_filters == a.num_filters
    &&& r.filter_size == a.filter_size
    &&& r.filters.same(&a.filters)
    &&& r.bias.same(&a.bias)
}

/// Assembles a block from copies of its layers, strides and padding. There is one stride
/// and one padding for each of `layers` and one more for `last_layer`.
pub fn new<T>(
    layers: &[Conv2D],
    last_layer: &Conv2D,
    strides: &[(usize, usize)],
    padding: &[(usize, usize, usize, usize)],
    activation: T,
) -> (r: Res2D<T>)
    requires
        layers@.len() + 1 == strides@.len(),
        strides@.len() == padding@.len(),
    ensures
        r.layers@.len() == layers@.len(),
        forall|i: int| 0 <= i < layers@.len() ==> same_layer(#[trigger] r.layers@[i], layers@[i]),
        same_layer(r.last_layer, *last_layer),
        r.strides@ == strides@,
        r.padding@ == padding@,
        r.activation == activation,
{
    let mut copies: Vec<Conv2D> = Vec::with_capacity(layers.len());
    let mut i: usize = 0;
    while i < layers.len()
        invariant
            i <= layers@.len(),
            copies@.len() == i,
            forall|k: int| 0 <= k < i ==> same_layer(#[trigger] copies@[k], layers@[k]),
        decreases layers@.len() - i,
    {
        copies.push(layers[i].clone());
        i += 1;
    }
    Res2D {
        layers: copies,
        last_layer: last_layer.clone(),
        strides: vstd::slice::slice_to_vec(strides),
        padding: vstd::slice::slice_to_vec(padding),
        activation,
    }
}

/// Every convolution of the block is well formed.
pub open spec fn wf<T>(a: Res2D<T>) -> bool {
    &&& forall|i: int| 0 <= i < a.layers@.len() ==> (#[trigger] a.layers@[i]).wf()
    &&& a.last_layer.wf()
}

/// The blocks have as many layers, and corresponding layers have parameters of the same
/// shapes.
pub open spec fn same_shapes<T>(a: Res2D<T>, b: Res2D<T>) -> bool {
    &&& a.layers@.len() == b.layers@.len()
    &&& forall|i: int|
        0 <= i < a.layers@.len() ==> same_parameter_shapes(#[trigger] a.layers@[i], b.layers@[i])
    &&& same_parameter_shapes(a.last_layer, b.last_layer)
}

/// Combines two blocks layer by layer with `op` (single-precision addition, for the sum
/// of two blocks). Strides, padding and activation are `a`'s. Fails with `ShapeMismatch`
/// unless the blocks have the same shapes.
pub fn add<T: Clone, F: Fn(u32, u32) -> u32>(a: &Res2D<T>, b: &Res2D<T>, op: &F) -> (r: Result<
    Res2D<T>,
    NnError,
>)
    requires
        wf(*a),
        wf(*b),
        forall|x: u32, y: u32| op.requires((x, y)),
    ensures
        !same_shapes(*a, *b) ==> r is Err,
        same_shapes(*a, *b) ==> (r matches Ok(c) && c.layers@.len() == a.layers@.len() && (forall|
            i: int,
        |
            0 <= i < a.layers@.len() ==> layers_combined(
                #[trigger] c.layers@[i],
                a.layers@[i],
                b.layers@[i],
                *op,
            )) && layers_combined(c.last_layer, a.last_layer, b.last_layer, *op) && c.strides@
            == a.strides@ && c.padding@ == a.padding@),
        r matches Err(e) ==> e == NnError::ShapeMismatch,
{
    if a.layers.len() != b.layers.len() {
        return Err(NnError::ShapeMismatch);
    }
    let mut layers: Vec<Conv2D> = Vec::with_capacity(a.layers.len());
    let mut i: usize = 0;
    while i < a.layers.len()
        invariant
            wf(*a),
            wf(*b),
            a.layers@.len() == b.layers@.len(),
            forall|x: u32, y: u32| op.requires((x, y)),
            i <= a.layers@.len(),
            layers@.len() == i,
            forall|k: int| 0 <= k < i ==> same_parameter_shapes(#[trigger] a.layers@[k], b.layers@[k]),
            forall|k: int|
                0 <= k < i ==> layers_combined(
                    #[trigger] layers@[k],
                    a.layers@[k],
                    b.layers@[k],
                    *op,
                ),
        decreases a.layers@.len() - i,
    {
        let layer = match conv2d::add(&a.layers[i], &b.layers[i], op) {
            Ok(c) => c,
            Err(e) => {
                return Err(e);
            },
        };
        layers.push(layer);
        i += 1;
    }
    let last_layer = match conv2d::add(&a.last_layer, &b.last_layer, op) {
        Ok(c) => c,
        Err(e) => {
            return Err(e);
        },
    };
    Ok(
        Res2D {
            layers,
            last_layer,
            strides: vstd::slice::slice_to_vec(a.strides.as_slice()),
            padding: vstd::slice::slice_to_vec(a.padding.as_slice()),
            activation: a.activation.clone(),
        },
    )
}

/// Applies `op` to every parameter (a single-precision product with a scalar, for
/// scaling a block). Strides, padding and activation are `a`'s.
pub fn scalar<T: Clone, F: Fn(u32) -> u32>(a: &Res2D<T>, op: &F) -> (r: Res2D<T>)
    requires
        wf(*a),
        forall|x: u32| op.requires((x,)),
    ensures
        r.layers@.len() == a.layers@.len(),
        forall|i: int|
            0 <= i < a.layers@.len() ==> layer_mapped(#[trigger] r.layers@[i], a.layers@[i], *op),
        layer_mapped(r.last_layer, a.last_layer, *op),
        r.strides@ == a.strides@,
        r.padding@ == a.padding@,
{
    let mut layers: Vec<Conv2D> = Vec::with_capacity(a.layers.len());
    let mut i: usize = 0;
    while i < a.layers.len()
        invariant
            wf(*a),
            forall|x: u32| op.requires((x,)),
            i <= a.layers@.len(),
            layers@.len() == i,
            forall|k: int| 0 <= k < i ==> layer_mapped(#[trigger] layers@[k], a.layers@[k], *op),
        decreases a.layers@.len() - i,
    {
        layers.push(conv2d::scalar(&a.layers[i], op));
        i += 1;
    }
    Res2D {
        layers,
        last_layer: conv2d::scalar(&a.last_layer, op),
        strides: vstd::slice::slice_to_vec(a.strides.as_slice()),
        padding: vstd::slice::slice_to_vec(a.padding.as_slice()),
        activation: a.activation.clone(),
    }
}

} // verus!
