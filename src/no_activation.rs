//! The identity activation.
use vstd::prelude::*;

use crate::activations::Activate;
use crate::matrix::Matrix;

verus! {

/// The activation that leaves every value as it is.
#[derive(Debug, Clone, Copy, PartialEq, Eq, Structural)]
pub struct NoActivation {}

/// The identity activation.
pub fn new() -> (r: NoActivation) {
    NoActivation {}
}

impl Activate for NoActivation {
    fn activate(&self, a: &Matrix) -> (r: Matrix)
        ensures
            r.same(a),
    {
        a.clone()
    }
}

} // verus!
