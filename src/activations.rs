//! The activation interface: an element-wise map over a matrix, applied after a layer.
use vstd::prelude::*;

use crate::matrix::Matrix;

verus! {

/// An element-wise activation. It keeps the shape of its argument.
pub trait Activate {
    fn activate(&self, a: &Matrix) -> (r: Matrix)
        requires
            a.wf(),
        ensures
            r.wf(),
            r.rows == a.rows,
            r.columns == a.columns,
    ;
}

} // verus!
