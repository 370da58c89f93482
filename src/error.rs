use vstd::prelude::*;

verus! {

/// Why an operation refused its operands. Every check is made before any work is done.
#[derive(Debug, Clone, Copy, PartialEq, Eq, Structural)]
pub enum NnError {
    /// A dimension is zero, or the element count of a shape does not fit in `usize`.
    InvalidShape,
    /// The operands' shapes do not fit together.
    ShapeMismatch,
    /// A stride component is zero.
    InvalidStride,
    /// The window-size formula does not come out to a whole number.
    NonIntegerWindowSize,
    /// A byte buffer's length disagrees with the number of elements expected.
    SizeMismatch,
}

} // verus!
