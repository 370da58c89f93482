//! Dense column-major matrices and a two-dimensional convolution layer built on them.
//!
//! Element values are single-precision floats, held as their IEEE-754 bit patterns
//! (`u32`). The library itself only moves values: the convolution's gather (`im2col`)
//! and scatter (`row2im`) steps, the filter layout, the window-size arithmetic and the
//! persistence format are proved to place every bit pattern exactly. Where an operation
//! needs float arithmetic (a sum, a product, a dot product, a random draw), the caller
//! passes it in as a closure, and the contracts say where each result came from.
pub mod activations;
pub mod conv2d;
pub mod error;
pub mod fully_connected;
mod index;
pub mod matrix;
pub mod no_activation;
pub mod res2d;
pub mod tic_tac_toe;
pub mod xor;
