//! A two-layer model for the exclusive-or problem: two inputs, ten hidden units, two
//! outputs.
use vstd::prelude::*;

use crate::error::NnError;
use crate::fully_connected::{
    self, layer_mapped, layer_sampled, layers_combined, same_shape, FullyConnected,
};

verus! {

/// The layers of the model.
pub struct XorModel {
    pub fc1: FullyConnected,
    pub fc2: FullyConnected,
}

impl Clone for XorModel {
    fn clone(&self) -> (r: Self)
        ensures
            r.fc1.weights.same(&self.fc1.weights),
            r.fc1.bias.same(&self.fc1.bias),
            r.fc2.weights.same(&self.fc2.weights),
            r.fc2.bias.same(&self.fc2.bias),
    {
        XorModel { fc1: self.fc1.clone(), fc2: self.fc2.clone() }
    }
}

/// The model with every parameter `+0.0`.
pub fn new() -> (r: XorModel)
    ensures
        r.fc1.wf(),
        r.fc1.weights.is_zeros(2, 10),
        r.fc1.bias.is_zeros(1, 10),
        r.fc2.wf(),
        r.fc2.weights.is_zeros(10, 2),
        r.fc2.bias.is_zeros(1, 2),
{
    let fc1 = match fully_connected::new(2, 10) {
        Ok(l) => l,
        Err(_) => {
            proof {
                assert(false);
            }
            return unreached();
        },
    };
    let fc2 = match fully_connected::new(10, 2) {
        Ok(l) => l,
        Err(_) => {
            proof {
                assert(false);
            }
            return unreached();
        },
    };
    XorModel { fc1, fc2 }
}

/// The model with every parameter drawn by `sample`, layer by layer (independent
/// standard-normal values, for a random start).
pub fn new_gaussian_noise<F: Fn() -> u32>(sample: &F) -> (r: XorModel)
    requires
        sample.requires(()),
    ensures
        layer_sampled(r.fc1, 2, 10, *sample),
        layer_sampled(r.fc2, 10, 2, *sample),
{
    let fc1 = match fully_connected::new_gaussian_noise(2, 10, sample) {
        Ok(l) => l,
        Err(_) => {
            proof {
                assert(false);
            }
            return unreached();
        },
    };
    let fc2 = match fully_connected::new_gaussian_noise(10, 2, sample) {
        Ok(l) => l,
        Err(_) => {
            proof {
                assert(false);
            }
            return unreached();
        },
    };
    XorModel { fc1, fc2 }
}

/// Combines two models layer by layer with `op` (single-precision addition, for the sum
/// of two models). Fails with `ShapeMismatch` unless the layers have the same shapes.
pub fn add<F: Fn(u32, u32) -> u32>(a: &XorModel, b: &XorModel, op: &F) -> (r: Result<
    XorModel,
    NnError,
>)
    requires
        a.fc1.wf() && a.fc2.wf(),
        b.fc1.wf() && b.fc2.wf(),
        forall|x: u32, y: u32| op.requires((x, y)),
    ensures
        !(same_shape(a.fc1, b.fc1) && same_shape(a.fc2, b.fc2)) ==> r == Err::<XorModel, NnError>(
            NnError::ShapeMismatch,
        ),
        same_shape(a.fc1, b.fc1) && same_shape(a.fc2, b.fc2) ==> (r matches Ok(m)
            && layers_combined(m.fc1, a.fc1, b.fc1, *op) && layers_combined(
            m.fc2,
            a.fc2,
            b.fc2,
            *op,
        )),
{
    let fc1 = match fully_connected::add(&a.fc1, &b.fc1, op) {
        Ok(l) => l,
        Err(e) => {
            return Err(e);
        },
    };
    let fc2 = match fully_connected::add(&a.fc2, &b.fc2, op) {
        Ok(l) => l,
        Err(e) => {
            return Err(e);
        },
    };
    Ok(XorModel { fc1, fc2 })
}

/// Applies `op` to every parameter (a single-precision product with a scalar, for
/// scaling a model).
pub fn scalar<F: Fn(u32) -> u32>(a: &XorModel, op: &F) -> (r: XorModel)
    requires
        a.fc1.wf() && a.fc2.wf(),
        forall|x: u32| op.requires((x,)),
    ensures
        layer_mapped(r.fc1, a.fc1, *op),
        layer_mapped(r.fc2, a.fc2, *op),
{
    XorModel { fc1: fully_connected::scalar(&a.fc1, op), fc2: fully_connected::scalar(&a.fc2, op) }
}

} // verus!
