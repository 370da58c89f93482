//! A two-dimensional convolution layer, lowered to one matrix product by `im2col`.
//!
//! Sizes are pairs `(rows, columns)`; strides are `(row stride, column stride)`; padding
//! is `(top, bottom, left, right)`, or `(top, left)` where only the leading edges matter.
use vstd::prelude::*;

use crate::error::NnError;
use crate::index::{lemma_join, lemma_position, lemma_split};
use crate::matrix::{
    self, column_of, combined, dot_of, mapped, product, row_of, valid_shape, words_of, Matrix, ZERO,
};

verus! {

/// A convolution layer: `num_filters` filters of `filter_size` over `num_channels` input
/// maps. Row `f` of `filters` is filter `f`, flattened channel by channel, then row by
/// row, then column by column; `bias` holds one value per filter.
pub struct Conv2D {
    pub num_channels: usize,
    pub num_filters: usize,
    pub filter_size: (usize, usize),
    pub filters: Matrix,
    pub bias: Matrix,
}

/// The number of values in one filter across all channels.
pub open spec fn filter_len(filter_size: (usize, usize), num_channels: usize) -> int {
    filter_size.0 * filter_size.1 * num_channels
}

impl Conv2D {
    /// The parameter matrices have the shapes that the layer's sizes call for.
    pub open spec fn wf(&self) -> bool {
        &&& self.filters.wf()
        &&& self.bias.wf()
        &&& self.filters.rows == self.num_filters
        &&& self.filters.columns == filter_len(self.filter_size, self.num_channels)
        &&& self.bias.rows == 1
        &&& self.bias.columns == self.num_filters
    }
}

impl Clone for Conv2D {
    fn clone(&self) -> (r: Self)
        ensures
            r.num_channels == self.num_channels,
            r.num_filters == self.num_filters,
            r.filter_size == self.filter_size,
            r.filters.same(&self.filters),
            r.bias.same(&self.bias),
    {
        Conv2D {
            num_channels: self.num_channels,
            num_filters: self.num_filters,
            filter_size: self.filter_size,
            filters: self.filters.clone(),
            bias: self.bias.clone(),
        }
    }
}

/// Builds a layer whose filters and bias are all `+0.0`. Fails with `InvalidShape` when
/// a size is zero or the filter matrix cannot be addressed.
pub fn new(num_channels: usize, num_filters: usize, filter_size: (usize, usize)) -> (r: Result<
    Conv2D,
    NnError,
>)
    ensures
        valid_shape(num_filters as int, filter_len(filter_size, num_channels)) ==> (r matches Ok(
            c,
        ) && c.wf() && c.num_channels == num_channels && c.num_filters == num_filters
            && c.filter_size == filter_size && c.filters.is_zeros(
            num_filters as nat,
            filter_len(filter_size, num_channels) as nat,
        ) && c.bias.is_zeros(1, num_filters as nat)),
        !valid_shape(num_filters as int, filter_len(filter_size, num_channels)) ==> r == Err::<
            Conv2D,
            NnError,
        >(NnError::InvalidShape),
{
    let per_channel = match filter_size.0.checked_mul(filter_size.1) {
        Some(n) => n,
        None => {
            proof {
                lemma_product_too_large(filter_size, num_channels, num_filters);
            }
            return Err(NnError::InvalidShape);
        },
    };
    let len = match per_channel.checked_mul(num_channels) {
        Some(n) => n,
        None => {
            proof {
                lemma_product_too_large(filter_size, num_channels, num_filters);
            }
            return Err(NnError::InvalidShape);
        },
    };
    let filters = match matrix::new(num_filters, len) {
        Ok(m) => m,
        Err(e) => {
            return Err(e);
        },
    };
    proof {
        assert(1 * (num_filters as int) <= usize::MAX);
    }
    let bias = match matrix::new(1, num_filters) {
        Ok(m) => m,
        Err(e) => {
            return Err(e);
        },
    };
    Ok(Conv2D { num_channels, num_filters, filter_size, filters, bias })
}

/// Reads a layer of `a`'s shape from the persisted forms of its filters and its bias.
/// Fails with `SizeMismatch` unless each buffer holds four bytes per element.
pub fn load(a: &Conv2D, filters: &[u8], bias: &[u8]) -> (r: Result<Conv2D, NnError>)
    requires
        a.wf(),
    ensures
        filters@.len() == 4 * a.filters.value@.len() && bias@.len() == 4 * a.bias.value@.len()
            ==> (r matches Ok(l) && l.wf() && l.num_channels == a.num_channels && l.num_filters
            == a.num_filters && l.filter_size == a.filter_size && words_of(
            filters@,
            l.filters.value@,
        ) && words_of(bias@, l.bias.value@)),
        !(filters@.len() == 4 * a.filters.value@.len() && bias@.len() == 4
            * a.bias.value@.len()) ==> r == Err::<Conv2D, NnError>(NnError::SizeMismatch),
{
    let f = match matrix::from_bytes(&a.filters, filters) {
        Ok(m) => m,
        Err(e) => {
            return Err(e);
        },
    };
    let b = match matrix::from_bytes(&a.bias, bias) {
        Ok(m) => m,
        Err(e) => {
            return Err(e);
        },
    };
    Ok(
        Conv2D {
            num_channels: a.num_channels,
            num_filters: a.num_filters,
            filter_size: a.filter_size,
            filters: f,
            bias: b,
        },
    )
}

/// Builds a layer whose filters and bias are drawn by `sample`, filters first, each in
/// buffer order (independent standard-normal values, for a random start). Fails with
/// `InvalidShape` as `new` does.
pub fn new_gaussian_noise<F: Fn() -> u32>(
    num_channels: usize,
    num_filters: usize,
    filter_size: (usize, usize),
    sample: &F,
) -> (r: Result<Conv2D, NnError>)
    requires
        sample.requires(()),
    ensures
        valid_shape(num_filters as int, filter_len(filter_size, num_channels)) ==> (r matches Ok(
            c,
        ) && c.wf() && c.num_channels == num_channels && c.num_filters == num_filters
            && c.filter_size == filter_size && sampled(c.filters, *sample) && sampled(
            c.bias,
            *sample,
        )),
        !valid_shape(num_filters as int, filter_len(filter_size, num_channels)) ==> r == Err::<
            Conv2D,
            NnError,
        >(NnError::InvalidShape),
{
    let per_channel = match filter_size.0.checked_mul(filter_size.1) {
        Some(n) => n,
        None => {
            proof {
                lemma_product_too_large(filter_size, num_channels, num_filters);
            }
            return Err(NnError::InvalidShape);
        },
    };
    let len = match per_channel.checked_mul(num_channels) {
        Some(n) => n,
        None => {
            proof {
                lemma_product_too_large(filter_size, num_channels, num_filters);
            }
            return Err(NnError::InvalidShape);
        },
    };
    let filters = match matrix::new_gaussian_noise(num_filters, len, sample) {
        Ok(m) => m,
        Err(e) => {
            return Err(e);
        },
    };
    proof {
        assert(1 * (num_filters as int) <= usize::MAX);
    }
    let bias = match matrix::new_gaussian_noise(1, num_filters, sample) {
        Ok(m) => m,
        Err(e) => {
            return Err(e);
        },
    };
    Ok(Conv2D { num_channels, num_filters, filter_size, filters, bias })
}

/// Every element of `m` is a value that `sample` can return.
pub open spec fn sampled<F: Fn() -> u32>(m: Matrix, sample: F) -> bool {
    forall|k: int| 0 <= k < m.value@.len() ==> sample.ensures((), #[trigger] m.value@[k])
}

/// Combines the parameters of two layers element by element with `op` (single-precision
/// addition, for the sum of two layers). The result has `a`'s sizes. Fails with
/// `ShapeMismatch` unless the filter matrices and the bias rows have the same shapes.
pub fn add<F: Fn(u32, u32) -> u32>(a: &Conv2D, b: &Conv2D, op: &F) -> (r: Result<Conv2D, NnError>)
    requires
        a.wf(),
        b.wf(),
        forall|x: u32, y: u32| op.requires((x, y)),
    ensures
        !same_parameter_shapes(*a, *b) ==> r == Err::<Conv2D, NnError>(NnError::ShapeMismatch),
        same_parameter_shapes(*a, *b) ==> (r matches Ok(c) && layers_combined(c, *a, *b, *op)),
{
    let filters = match matrix::add(&a.filters, &b.filters, op) {
        Ok(m) => m,
        Err(e) => {
            return Err(e);
        },
    };
    let bias = match matrix::add(&a.bias, &b.bias, op) {
        Ok(m) => m,
        Err(e) => {
            return Err(e);
        },
    };
    Ok(
        Conv2D {
            num_channels: a.num_channels,
            num_filters: a.num_filters,
            filter_size: a.filter_size,
            filters,
            bias,
        },
    )
}

/// The filter matrices and the bias rows of `a` and `b` have the same shapes.
pub open spec fn same_parameter_shapes(a: Conv2D, b: Conv2D) -> bool {
    &&& a.filters.rows == b.filters.rows
    &&& a.filters.columns == b.filters.columns
    &&& a.bias.rows == b.bias.rows
    &&& a.bias.columns == b.bias.columns
}

/// Applies `op` to every filter and bias value (a single-precision product with a scalar,
/// for scaling a layer).
pub fn scalar<F: Fn(u32) -> u32>(a: &Conv2D, op: &F) -> (r: Conv2D)
    requires
        a.wf(),
        forall|x: u32| op.requires((x,)),
    ensures
        layer_mapped(r, *a, *op),
{
    Conv2D {
        num_channels: a.num_channels,
        num_filters: a.num_filters,
        filter_size: a.filter_size,
        filters: matrix::map(&a.filters, op),
        bias: matrix::map(&a.bias, op),
    }
}

/// Where the per-channel or the whole filter length exceeds `usize`, so does the filter
/// matrix, unless it has a zero dimension.
proof fn lemma_product_too_large(filter_size: (usize, usize), num_channels: usize, num_filters: usize)
    requires
        filter_size.0 * filter_size.1 > usize::MAX || filter_size.0 * filter_size.1
            * num_channels > usize::MAX,
    ensures
        !valid_shape(num_filters as int, filter_len(filter_size, num_channels)),
{
    let a = filter_size.0 as int;
    let b = filter_size.1 as int;
    let c = num_channels as int;
    let f = num_filters as int;
    if c >= 1 && f >= 1 {
        assert(a * b <= a * b * c) by (nonlinear_arith)
            requires
                a >= 0,
                b >= 0,
                c >= 1,
        ;
        assert(a * b * c <= f * (a * b * c)) by (nonlinear_arith)
            requires
                a >= 0,
                b >= 0,
                c >= 1,
                f >= 1,
        ;
    }
}

/// The padded input extent along one axis.
pub open spec fn padded(input: usize, before: usize, after: usize) -> int {
    input + before + after
}

/// What `get_window_size` returns: the number of output rows and columns, or why there
/// is none. The checks come in this order: a zero stride component, a zero filter
/// dimension, a filter larger than the padded input, a window count that is not whole.
pub open spec fn window_size_of(
    input_size: (usize, usize),
    filter_size: (usize, usize),
    stride_size: (usize, usize),
    padding: (usize, usize, usize, usize),
) -> Result<(usize, usize), NnError> {
    let padded_rows = padded(input_size.0, padding.0, padding.1);
    let padded_columns = padded(input_size.1, padding.2, padding.3);
    if stride_size.0 == 0 || stride_size.1 == 0 {
        Err(NnError::InvalidStride)
    } else if filter_size.0 == 0 || filter_size.1 == 0 {
        Err(NnError::InvalidShape)
    } else if filter_size.0 > padded_rows || filter_size.1 > padded_columns {
        Err(NnError::ShapeMismatch)
    } else if (padded_rows - filter_size.0) % (stride_size.0 as int) != 0 || (padded_columns
        - filter_size.1) % (stride_size.1 as int) != 0 {
        Err(NnError::NonIntegerWindowSize)
    } else {
        Ok(
            (
                ((padded_rows - filter_size.0) / (stride_size.0 as int) + 1) as usize,
                ((padded_columns - filter_size.1) / (stride_size.1 as int) + 1) as usize,
            ),
        )
    }
}

/// The number of output rows and columns of a convolution over `input_size`:
/// `(input + before + after - filter) / stride + 1` along each axis. Fails with
/// `InvalidStride`, `InvalidShape`, `ShapeMismatch` or `NonIntegerWindowSize` as
/// `window_size_of` sets out.
pub fn get_window_size(
    input_size: (usize, usize),
    filter_size: (usize, usize),
    stride_size: (usize, usize),
    padding: (usize, usize, usize, usize),
) -> (r: Result<(usize, usize), NnError>)
    requires
        padded(input_size.0, padding.0, padding.1) <= usize::MAX,
        padded(input_size.1, padding.2, padding.3) <= usize::MAX,
    ensures
        r == window_size_of(input_size, filter_size, stride_size, padding),
{
    if stride_size.0 == 0 || stride_size.1 == 0 {
        return Err(NnError::InvalidStride);
    }
    if filter_size.0 == 0 || filter_size.1 == 0 {
        return Err(NnError::InvalidShape);
    }
    let padded_rows = input_size.0 + padding.0 + padding.1;
    let padded_columns = input_size.1 + padding.2 + padding.3;
    if filter_size.0 > padded_rows || filter_size.1 > padded_columns {
        return Err(NnError::ShapeMismatch);
    }
    let span_rows = padded_rows - filter_size.0;
    let span_columns = padded_columns - filter_size.1;
    if span_rows % stride_size.0 != 0 || span_columns % stride_size.1 != 0 {
        return Err(NnError::NonIntegerWindowSize);
    }
    Ok((span_rows / stride_size.0 + 1, span_columns / stride_size.1 + 1))
}

/// `x` does not shrink when multiplied by a positive factor.
proof fn lemma_grows(x: int, y: int)
    requires
        x >= 0,
        y >= 1,
    ensures
        x <= x * y,
        x <= y * x,
{
    assert(x <= x * y && x <= y * x) by (nonlinear_arith)
        requires
            x >= 0,
            y >= 1,
    ;
}

/// The value of map `m` at `(row, column)`, or `+0.0` where that lies outside it.
pub open spec fn padded_at(m: Matrix, row: int, column: int) -> u32 {
    if 0 <= row < m.rows && 0 <= column < m.columns {
        m.at(row, column)
    } else {
        ZERO
    }
}

/// The source coordinate, along one axis, of filter offset `f` in window `w`.
pub open spec fn source(w: int, stride: usize, f: int, before: usize) -> int {
    w * stride + f - before
}

/// Element `(i, j)` of the gathered matrix. Column `j` is window `(j / wc, j % wc)`, with
/// windows in row-major order; row `i` is channel `i / (fr * fc)` at filter offset
/// `(i % (fr * fc) / fc, i % fc)`. The value is the input pixel under that offset, or
/// `+0.0` in the padding.
pub open spec fn gathered(
    a: Seq<Matrix>,
    window_size: (usize, usize),
    filter_size: (usize, usize),
    stride_size: (usize, usize),
    padding: (usize, usize),
    i: int,
    j: int,
) -> u32 {
    let per_channel = filter_size.0 * filter_size.1;
    let within = i % per_channel;
    padded_at(
        a[i / per_channel],
        source(j / window_size.1 as int, stride_size.0, within / filter_size.1 as int, padding.0),
        source(j % window_size.1 as int, stride_size.1, within % filter_size.1 as int, padding.1),
    )
}

/// The input maps are `num_channels` maps of one shape, each at least as large as the
/// filter.
pub open spec fn fits_filter(a: Seq<Matrix>, filter_size: (usize, usize), num_channels: usize) -> bool {
    &&& a.len() == num_channels
    &&& a.len() >= 1
    &&& forall|c: int|
        0 <= c < a.len() ==> #[trigger] a[c].rows == a[0].rows && a[c].columns == a[0].columns
    &&& filter_size.0 <= a[0].rows
    &&& filter_size.1 <= a[0].columns
}

/// The column-major position of `(i, j)` in a matrix with `rows` rows.
fn position(i: usize, j: usize, rows: usize, columns: usize) -> (r: usize)
    requires
        i < rows,
        j < columns,
        rows * columns <= usize::MAX,
    ensures
        r == j * rows + i,
        r < rows * columns,
{
    proof {
        lemma_position(i as int, j as int, rows as int, columns as int);
    }
    j * rows + i
}

/// The source coordinate of filter offset `f` in window `w` along one axis, when it lies
/// inside `[0, extent)`.
fn source_in(w: usize, stride: usize, f: usize, before: usize, extent: usize) -> (r: Option<usize>)
    ensures
        r matches Some(x) ==> x == source(w as int, stride, f as int, before),
        r is Some <==> 0 <= source(w as int, stride, f as int, before) < extent,
{
    proof {
        assert((w as int) * (stride as int) <= 0xffff_ffff_ffff_ffff * 0xffff_ffff_ffff_ffffint)
            by (nonlinear_arith)
            requires
                0 <= w <= 0xffff_ffff_ffff_ffffint,
                0 <= stride <= 0xffff_ffff_ffff_ffffint,
        ;
    }
    let reach = (w as u128) * (stride as u128) + (f as u128);
    if reach < before as u128 {
        return None;
    }
    let x = reach - before as u128;
    if x < extent as u128 {
        Some(x as usize)
    } else {
        None
    }
}

/// Why `im2col` refuses its operands, checked in this order: the result would have no
/// rows or columns or could not be addressed; the input is not `num_channels` maps of
/// one shape, each at least as large as the filter.
pub open spec fn im2col_check(
    a: Seq<Matrix>,
    window_size: (usize, usize),
    filter_size: (usize, usize),
    num_channels: usize,
) -> Result<(), NnError> {
    if !valid_shape(filter_len(filter_size, num_channels), window_size.0 * window_size.1) {
        Err(NnError::InvalidShape)
    } else if !fits_filter(a, filter_size, num_channels) {
        Err(NnError::ShapeMismatch)
    } else {
        Ok(())
    }
}

/// `m` is the gathered matrix of the input maps `a`: one row per channel and filter
/// offset, one column per window, each element as `gathered` gives it.
pub open spec fn is_gathered(
    m: Matrix,
    a: Seq<Matrix>,
    window_size: (usize, usize),
    filter_size: (usize, usize),
    num_channels: usize,
    stride_size: (usize, usize),
    padding: (usize, usize),
) -> bool {
    &&& m.wf()
    &&& m.rows == filter_len(filter_size, num_channels)
    &&& m.columns == window_size.0 * window_size.1
    &&& forall|i: int, j: int|
        0 <= i < m.rows && 0 <= j < m.columns ==> #[trigger] m.at(i, j) == gathered(
            a,
            window_size,
            filter_size,
            stride_size,
            padding,
            i,
            j,
        )
}

/// Gathers every filter-sized window of the input maps into one column of a matrix, so
/// that a convolution becomes one matrix product. The result has
/// `filter rows * filter columns * num_channels` rows and `window rows * window columns`
/// columns; its elements are as `gathered` gives them, `+0.0` wherever a window reaches
/// into the padding. `padding` is `(top, left)`.
///
/// Fails with `InvalidShape` or `ShapeMismatch` as `im2col_check` sets out.
pub fn im2col(
    a: &[Matrix],
    window_size: (usize, usize),
    filter_size: (usize, usize),
    num_channels: usize,
    stride_size: (usize, usize),
    padding: (usize, usize),
) -> (r: Result<Matrix, NnError>)
    requires
        forall|c: int| 0 <= c < a@.len() ==> (#[trigger] a@[c]).wf(),
    ensures
        im2col_check(a@, window_size, filter_size, num_channels) matches Err(e) ==> r == Err::<
            Matrix,
            NnError,
        >(e),
        im2col_check(a@, window_size, filter_size, num_channels) is Ok ==> (r matches Ok(m)
            && is_gathered(m, a@, window_size, filter_size, num_channels, stride_size, padding)),
{
    let ghost k_spec = filter_len(filter_size, num_channels);
    let ghost w_spec = window_size.0 * window_size.1;
    if filter_size.0 == 0 || filter_size.1 == 0 || num_channels == 0 || window_size.0 == 0
        || window_size.1 == 0 {
        proof {
            assert(k_spec == 0 || w_spec == 0) by (nonlinear_arith)
                requires
                    filter_size.0 == 0 || filter_size.1 == 0 || num_channels == 0 || window_size.0
                        == 0 || window_size.1 == 0,
                    k_spec == filter_size.0 * filter_size.1 * num_channels,
                    w_spec == window_size.0 * window_size.1,
            ;
        }
        return Err(NnError::InvalidShape);
    }
    proof {
        lemma_grows(filter_size.0 * filter_size.1, num_channels as int);
        lemma_grows(filter_size.0 as int, filter_size.1 as int);
        lemma_grows(window_size.0 as int, window_size.1 as int);
        lemma_grows(k_spec, w_spec);
        lemma_grows(w_spec, k_spec);
    }
    let per_channel = match filter_size.0.checked_mul(filter_size.1) {
        Some(n) => n,
        None => {
            return Err(NnError::InvalidShape);
        },
    };
    let k_rows = match per_channel.checked_mul(num_channels) {
        Some(n) => n,
        None => {
            return Err(NnError::InvalidShape);
        },
    };
    let w_columns = match window_size.0.checked_mul(window_size.1) {
        Some(n) => n,
        None => {
            return Err(NnError::InvalidShape);
        },
    };
    let total = match k_rows.checked_mul(w_columns) {
        Some(n) => n,
        None => {
            return Err(NnError::InvalidShape);
        },
    };
    assert(valid_shape(k_spec, w_spec));
    if a.len() != num_channels {
        return Err(NnError::ShapeMismatch);
    }
    let rows = a[0].rows;
    let columns = a[0].columns;
    let mut c: usize = 0;
    while c < num_channels
        invariant
            c <= num_channels,
            a@.len() == num_channels,
            valid_shape(k_spec, w_spec),
            k_spec == filter_len(filter_size, num_channels),
            w_spec == window_size.0 * window_size.1,
            rows == a@[0].rows,
            columns == a@[0].columns,
            forall|t: int|
                0 <= t < c ==> (#[trigger] a@[t]).rows == rows && a@[t].columns == columns,
        decreases num_channels - c,
    {
        if a[c].rows != rows || a[c].columns != columns {
            return Err(NnError::ShapeMismatch);
        }
        c += 1;
    }
    if filter_size.0 > rows || filter_size.1 > columns {
        return Err(NnError::ShapeMismatch);
    }
    let mut value: Vec<u32> = Vec::with_capacity(total);
    let mut idx: usize = 0;
    while idx < total
        invariant
            total == k_rows * w_columns,
            k_rows == k_spec,
            k_rows == per_channel * num_channels,
            per_channel == filter_size.0 * filter_size.1,
            w_columns == window_size.0 * window_size.1,
            filter_size.1 >= 1,
            window_size.1 >= 1,
            per_channel >= 1,
            k_rows >= 1,
            fits_filter(a@, filter_size, num_channels),
            forall|t: int| 0 <= t < a@.len() ==> (#[trigger] a@[t]).wf(),
            idx <= total,
            value@.len() == idx,
            forall|t: int|
                0 <= t < idx ==> #[trigger] value@[t] == gathered(
                    a@,
                    window_size,
                    filter_size,
                    stride_size,
                    padding,
                    t % (k_rows as int),
                    t / (k_rows as int),
                ),
        decreases total - idx,
    {
        let j = idx / k_rows;
        let i = idx % k_rows;
        proof {
            lemma_split(idx as int, k_rows as int, w_columns as int);
            lemma_split(i as int, per_channel as int, num_channels as int);
        }
        let channel = i / per_channel;
        let within = i % per_channel;
        let m = &a[channel];
        let row = source_in(
            j / window_size.1,
            stride_size.0,
            within / filter_size.1,
            padding.0,
            m.rows,
        );
        let col = source_in(
            j % window_size.1,
            stride_size.1,
            within % filter_size.1,
            padding.1,
            m.columns,
        );
        let v = match (row, col) {
            (Some(x), Some(y)) => m.value[position(x, y, m.rows, m.columns)],
            _ => ZERO,
        };
        value.push(v);
        idx += 1;
    }
    let r = Matrix { rows: k_rows, columns: w_columns, value };
    proof {
        assert forall|i: int, j: int| 0 <= i < r.rows && 0 <= j < r.columns implies #[trigger] r.at(
            i,
            j,
        ) == gathered(a@, window_size, filter_size, stride_size, padding, i, j) by {
            lemma_join(j, i, k_rows as int, w_columns as int);
            assert(j * k_rows + i < total);
        }
    }
    Ok(r)
}

/// Row `f` of `a` laid out as a `window_size` map: offset `k` of the row goes to
/// `(k / window columns, k % window columns)`.
fn unpack_row(a: &Matrix, f: usize, window_size: (usize, usize)) -> (r: Matrix)
    requires
        a.wf(),
        f < a.rows,
        a.columns == window_size.0 * window_size.1,
    ensures
        r.wf(),
        r.rows == window_size.0,
        r.columns == window_size.1,
        forall|p: int, q: int|
            0 <= p < r.rows && 0 <= q < r.columns ==> #[trigger] r.at(p, q) == a.at(
                f as int,
                p * window_size.1 + q,
            ),
{
    let n = a.columns;
    proof {
        assert(window_size.0 >= 1 && window_size.1 >= 1) by (nonlinear_arith)
            requires
                window_size.0 * window_size.1 >= 1,
        ;
        lemma_grows(window_size.0 as int, window_size.1 as int);
        lemma_grows(window_size.1 as int, window_size.0 as int);
        assert(window_size.1 * window_size.0 == window_size.0 * window_size.1) by (nonlinear_arith);
    }
    let mut value: Vec<u32> = Vec::with_capacity(n);
    let mut t: usize = 0;
    while t < n
        invariant
            a.wf(),
            f < a.rows,
            n == a.columns,
            n == window_size.0 * window_size.1,
            n == window_size.1 * window_size.0,
            window_size.0 >= 1,
            t <= n,
            value@.len() == t,
            forall|u: int|
                0 <= u < t ==> #[trigger] value@[u] == a.at(
                    f as int,
                    (u % window_size.0 as int) * window_size.1 + u / window_size.0 as int,
                ),
        decreases n - t,
    {
        proof {
            lemma_split(t as int, window_size.0 as int, window_size.1 as int);
            lemma_join(
                (t % window_size.0) as int,
                (t / window_size.0) as int,
                window_size.1 as int,
                window_size.0 as int,
            );
        }
        let column = (t % window_size.0) * window_size.1 + t / window_size.0;
        value.push(a.value[position(f, column, a.rows, a.columns)]);
        t += 1;
    }
    let r = Matrix { rows: window_size.0, columns: window_size.1, value };
    proof {
        assert forall|p: int, q: int| 0 <= p < r.rows && 0 <= q < r.columns implies #[trigger] r.at(
            p,
            q,
        ) == a.at(f as int, p * window_size.1 + q) by {
            lemma_join(q, p, window_size.0 as int, window_size.1 as int);
        }
    }
    r
}

/// Splits each row of a filter-response matrix into a `window_size` output map: map `f`
/// holds row `f`, with offset `k` of the row at `(k / window columns, k % window
/// columns)`. This undoes the window order of `im2col`'s columns.
///
/// Fails with `ShapeMismatch` unless `a` has `window rows * window columns` columns.
pub fn row2im(a: &Matrix, window_size: (usize, usize)) -> (r: Result<Vec<Matrix>, NnError>)
    requires
        a.wf(),
    ensures
        a.columns != window_size.0 * window_size.1 ==> r == Err::<Vec<Matrix>, NnError>(
            NnError::ShapeMismatch,
        ),
        a.columns == window_size.0 * window_size.1 ==> (r matches Ok(maps) && maps@.len() == a.rows
            && forall|f: int|
            0 <= f < a.rows ==> #[trigger] unpacked(maps@[f], *a, f, window_size)),
{
    match window_size.0.checked_mul(window_size.1) {
        Some(n) => {
            if n != a.columns {
                return Err(NnError::ShapeMismatch);
            }
        },
        None => {
            return Err(NnError::ShapeMismatch);
        },
    }
    let mut maps: Vec<Matrix> = Vec::with_capacity(a.rows);
    let mut f: usize = 0;
    while f < a.rows
        invariant
            a.wf(),
            a.columns == window_size.0 * window_size.1,
            f <= a.rows,
            maps@.len() == f,
            forall|g: int| 0 <= g < f ==> #[trigger] unpacked(maps@[g], *a, g, window_size),
        decreases a.rows - f,
    {
        maps.push(unpack_row(a, f, window_size));
        f += 1;
    }
    Ok(maps)
}

/// `m` is row `f` of `a` laid out as a `window_size` map.
pub open spec fn unpacked(m: Matrix, a: Matrix, f: int, window_size: (usize, usize)) -> bool {
    &&& m.wf()
    &&& m.rows == window_size.0
    &&& m.columns == window_size.1
    &&& forall|p: int, q: int|
        0 <= p < m.rows && 0 <= q < m.columns ==> #[trigger] m.at(p, q) == a.at(
            f,
            p * window_size.1 + q,
        )
}

/// `m` is the kernel of filter `f` on channel `c`: its element `(i, j)` is column
/// `c * fr * fc + i * fc + j` of row `f` of `filters`.
pub open spec fn kernel(m: Matrix, filters: Matrix, f: int, c: int, filter_size: (usize, usize)) -> bool {
    &&& m.wf()
    &&& m.rows == filter_size.0
    &&& m.columns == filter_size.1
    &&& forall|i: int, j: int|
        0 <= i < m.rows && 0 <= j < m.columns ==> #[trigger] m.at(i, j) == filters.at(
            f,
            c * (filter_size.0 * filter_size.1) + i * filter_size.1 + j,
        )
}

/// The kernel of filter `f` on channel `c`, taken from row `f` of `filters`.
fn kernel_of(filters: &Matrix, f: usize, c: usize, filter_size: (usize, usize), num_channels: usize) -> (r:
    Matrix)
    requires
        filters.wf(),
        f < filters.rows,
        c < num_channels,
        filters.columns == filter_len(filter_size, num_channels),
    ensures
        kernel(r, *filters, f as int, c as int, filter_size),
{
    let ghost per = filter_size.0 * filter_size.1;
    proof {
        assert(filter_size.0 >= 1 && filter_size.1 >= 1 && num_channels >= 1 && per >= 1)
            by (nonlinear_arith)
            requires
                filter_size.0 * filter_size.1 * num_channels >= 1,
                per == filter_size.0 * filter_size.1,
        ;
        lemma_grows(per, num_channels as int);
        assert(filter_size.1 * filter_size.0 == per) by (nonlinear_arith)
            requires
                per == filter_size.0 * filter_size.1,
        ;
    }
    let per_channel = filter_size.0 * filter_size.1;
    proof {
        lemma_join(c as int, 0, per, num_channels as int);
    }
    let base = c * per_channel;
    let mut value: Vec<u32> = Vec::with_capacity(per_channel);
    let mut t: usize = 0;
    while t < per_channel
        invariant
            filters.wf(),
            f < filters.rows,
            c < num_channels,
            filters.columns == per * num_channels,
            per == filter_size.0 * filter_size.1,
            per == filter_size.1 * filter_size.0,
            per_channel == per,
            base == c * per,
            filter_size.0 >= 1,
            t <= per_channel,
            value@.len() == t,
            forall|u: int|
                0 <= u < t ==> #[trigger] value@[u] == filters.at(
                    f as int,
                    c * per + (u % filter_size.0 as int) * filter_size.1 + u / filter_size.0 as int,
                ),
        decreases per_channel - t,
    {
        proof {
            lemma_split(t as int, filter_size.0 as int, filter_size.1 as int);
            lemma_join(
                (t % filter_size.0) as int,
                (t / filter_size.0) as int,
                filter_size.1 as int,
                filter_size.0 as int,
            );
            lemma_join(
                c as int,
                (t % filter_size.0) * filter_size.1 + t / filter_size.0,
                per,
                num_channels as int,
            );
        }
        let column = base + (t % filter_size.0) * filter_size.1 + t / filter_size.0;
        value.push(filters.value[position(f, column, filters.rows, filters.columns)]);
        t += 1;
    }
    let r = Matrix { rows: filter_size.0, columns: filter_size.1, value };
    proof {
        assert forall|i: int, j: int| 0 <= i < r.rows && 0 <= j < r.columns implies #[trigger] r.at(
            i,
            j,
        ) == filters.at(f as int, c * per + i * filter_size.1 + j) by {
            lemma_join(j, i, filter_size.0 as int, filter_size.1 as int);
        }
    }
    r
}

/// Splits a filter matrix into one kernel per filter and channel: entry
/// `f * num_channels + c` is the kernel of filter `f` on channel `c`, read in the
/// channel, row, column order that `im2col` uses for its rows.
///
/// Fails with `ShapeMismatch` unless `a` has `filter rows * filter columns * num_channels`
/// columns.
pub fn get_filters(a: &Matrix, filter_size: (usize, usize), num_channels: usize) -> (r: Result<
    Vec<Matrix>,
    NnError,
>)
    requires
        a.wf(),
    ensures
        a.columns != filter_len(filter_size, num_channels) ==> r == Err::<Vec<Matrix>, NnError>(
            NnError::ShapeMismatch,
        ),
        a.columns == filter_len(filter_size, num_channels) ==> (r matches Ok(kernels)
            && kernels@.len() == a.rows * num_channels && forall|f: int, c: int|
            0 <= f < a.rows && 0 <= c < num_channels ==> #[trigger] kernel(
                kernels@[f * num_channels + c],
                *a,
                f,
                c,
                filter_size,
            )),
{
    let ghost len = filter_len(filter_size, num_channels);
    let per_channel = match filter_size.0.checked_mul(filter_size.1) {
        Some(n) => n,
        None => {
            proof {
                if num_channels >= 1 {
                    lemma_grows(filter_size.0 * filter_size.1, num_channels as int);
                } else {
                    assert(len == 0) by (nonlinear_arith)
                        requires
                            num_channels == 0,
                            len == filter_size.0 * filter_size.1 * num_channels,
                    ;
                }
            }
            return Err(NnError::ShapeMismatch);
        },
    };
    match per_channel.checked_mul(num_channels) {
        Some(n) => {
            if n != a.columns {
                return Err(NnError::ShapeMismatch);
            }
        },
        None => {
            return Err(NnError::ShapeMismatch);
        },
    }
    proof {
        assert(num_channels >= 1 && per_channel >= 1) by (nonlinear_arith)
            requires
                per_channel * num_channels >= 1,
        ;
        lemma_grows(num_channels as int, per_channel as int);
        assert(a.rows * num_channels <= a.rows * a.columns) by (nonlinear_arith)
            requires
                num_channels <= a.columns,
                a.rows >= 1,
        ;
    }
    let count = a.rows * num_channels;
    let mut kernels: Vec<Matrix> = Vec::with_capacity(count);
    let mut k: usize = 0;
    while k < count
        invariant
            a.wf(),
            a.columns == len,
            len == filter_len(filter_size, num_channels),
            num_channels >= 1,
            count == a.rows * num_channels,
            k <= count,
            kernels@.len() == k,
            forall|u: int|
                0 <= u < k ==> #[trigger] kernel(
                    kernels@[u],
                    *a,
                    u / num_channels as int,
                    u % num_channels as int,
                    filter_size,
                ),
        decreases count - k,
    {
        proof {
            assert(num_channels * a.rows == a.rows * num_channels) by (nonlinear_arith);
            lemma_split(k as int, num_channels as int, a.rows as int);
        }
        kernels.push(kernel_of(a, k / num_channels, k % num_channels, filter_size, num_channels));
        k += 1;
    }
    proof {
        assert forall|f: int, c: int| 0 <= f < a.rows && 0 <= c < num_channels implies #[trigger] kernel(
            kernels@[f * num_channels + c],
            *a,
            f,
            c,
            filter_size,
        ) by {
            lemma_join(f, c, num_channels as int, a.rows as int);
            assert(a.rows * num_channels == num_channels * a.rows) by (nonlinear_arith);
        }
    }
    Ok(kernels)
}

/// The shape of a map, as `(rows, columns)`.
pub open spec fn shape(m: Matrix) -> (usize, usize) {
    (m.rows, m.columns)
}

/// Why the gather step of a forward pass refuses its operands, checked in this order:
/// the input does not hold `conv.num_channels` maps (`ShapeMismatch`); `get_window_size`
/// fails on the first map's shape; `im2col` fails. Otherwise the window size.
pub open spec fn gather_check(
    conv: Conv2D,
    input: Seq<Matrix>,
    stride: (usize, usize),
    padding: (usize, usize, usize, usize),
) -> Result<(usize, usize), NnError> {
    if input.len() != conv.num_channels {
        Err(NnError::ShapeMismatch)
    } else {
        match window_size_of(shape(input[0]), conv.filter_size, stride, padding) {
            Err(e) => Err(e),
            Ok(w) => match im2col_check(input, w, conv.filter_size, conv.num_channels) {
                Err(e) => Err(e),
                Ok(_) => Ok(w),
            },
        }
    }
}

/// The checks and the gather step of a forward pass. The window size comes from the
/// first map's shape by `get_window_size`; the maps are then gathered by `im2col` with
/// the top and left padding. What remains of the pass is the product of `conv.filters`
/// with the gathered matrix, `row2im`, and the bias.
///
/// Returns the gathered matrix and the window size. Fails as `gather_check` sets out.
pub fn gather_input(
    conv: &Conv2D,
    input: &[Matrix],
    stride: (usize, usize),
    padding: (usize, usize, usize, usize),
) -> (r: Result<(Matrix, (usize, usize)), NnError>)
    requires
        conv.wf(),
        forall|c: int| 0 <= c < input@.len() ==> (#[trigger] input@[c]).wf(),
        input@.len() >= 1 ==> padded(input@[0].rows, padding.0, padding.1) <= usize::MAX,
        input@.len() >= 1 ==> padded(input@[0].columns, padding.2, padding.3) <= usize::MAX,
    ensures
        gather_check(*conv, input@, stride, padding) matches Err(e) ==> r == Err::<
            (Matrix, (usize, usize)),
            NnError,
        >(e),
        gather_check(*conv, input@, stride, padding) matches Ok(w) ==> (r matches Ok(p) && p.1 == w
            && is_gathered(
            p.0,
            input@,
            w,
            conv.filter_size,
            conv.num_channels,
            stride,
            (padding.0, padding.2),
        )),
{
    if input.len() != conv.num_channels {
        return Err(NnError::ShapeMismatch);
    }
    proof {
        assert(conv.num_channels >= 1) by (nonlinear_arith)
            requires
                conv.filter_size.0 * conv.filter_size.1 * conv.num_channels >= 1,
        ;
    }
    let window_size = match get_window_size(
        (input[0].rows, input[0].columns),
        conv.filter_size,
        stride,
        padding,
    ) {
        Ok(w) => w,
        Err(e) => {
            return Err(e);
        },
    };
    match im2col(
        input,
        window_size,
        conv.filter_size,
        conv.num_channels,
        stride,
        (padding.0, padding.2),
    ) {
        Ok(m) => Ok((m, window_size)),
        Err(e) => Err(e),
    }
}

/// Reading the gathered matrix by channel, filter offset and window: the entry for
/// channel `c`, offset `(fr, fc)` and window `(wr, wc)` stands in row
/// `c * fr_n * fc_n + fr * fc_n + fc` and column `wr * wc_n + wc`. It is the input pixel
/// at `(wr * row stride + fr - top, wc * column stride + fc - left)` where that lies
/// inside the map, and `+0.0` exactly where it does not: no read leaves the input.
pub proof fn lemma_window_offsets(
    m: Matrix,
    a: Seq<Matrix>,
    window_size: (usize, usize),
    filter_size: (usize, usize),
    num_channels: usize,
    stride_size: (usize, usize),
    padding: (usize, usize),
    c: int,
    fr: int,
    fc: int,
    wr: int,
    wc: int,
)
    requires
        is_gathered(m, a, window_size, filter_size, num_channels, stride_size, padding),
        a.len() == num_channels,
        0 <= c < num_channels,
        0 <= fr < filter_size.0,
        0 <= fc < filter_size.1,
        0 <= wr < window_size.0,
        0 <= wc < window_size.1,
    ensures
        ({
            let i = c * (filter_size.0 * filter_size.1) + fr * filter_size.1 + fc;
            let j = wr * window_size.1 + wc;
            let row = source(wr, stride_size.0, fr, padding.0);
            let column = source(wc, stride_size.1, fc, padding.1);
            &&& 0 <= i < m.rows
            &&& 0 <= j < m.columns
            &&& (0 <= row < a[c].rows && 0 <= column < a[c].columns) ==> m.at(i, j) == a[c].at(
                row,
                column,
            )
            &&& !(0 <= row < a[c].rows && 0 <= column < a[c].columns) ==> m.at(i, j) == ZERO
        }),
{
    let per = filter_size.0 * filter_size.1;
    let within = fr * filter_size.1 + fc;
    let i = c * per + within;
    let j = wr * window_size.1 + wc;
    lemma_join(wr, wc, window_size.1 as int, window_size.0 as int);
    lemma_join(fr, fc, filter_size.1 as int, filter_size.0 as int);
    assert(filter_size.1 * filter_size.0 == per) by (nonlinear_arith)
        requires
            per == filter_size.0 * filter_size.1,
    ;
    lemma_join(c, within, per, num_channels as int);
    assert(num_channels * per == per * num_channels) by (nonlinear_arith);
    assert(window_size.1 * window_size.0 == window_size.0 * window_size.1) by (nonlinear_arith);
    assert(m.at(i, j) == gathered(a, window_size, filter_size, stride_size, padding, i, j));
}

/// With a one-by-one filter, unit strides and no padding, `im2col` followed by `row2im`
/// gives back the input maps: column `p * columns + q` of the gathered matrix is pixel
/// `(p, q)`, and `row2im` puts it back there.
pub proof fn lemma_unit_filter_round_trip(
    a: Seq<Matrix>,
    num_channels: usize,
    gathered_matrix: Matrix,
    maps: Seq<Matrix>,
)
    requires
        fits_filter(a, (1, 1), num_channels),
        forall|c: int| 0 <= c < a.len() ==> (#[trigger] a[c]).wf(),
        is_gathered(
            gathered_matrix,
            a,
            shape(a[0]),
            (1, 1),
            num_channels,
            (1, 1),
            (0, 0),
        ),
        maps.len() == gathered_matrix.rows,
        forall|f: int|
            0 <= f < gathered_matrix.rows ==> #[trigger] unpacked(
                maps[f],
                gathered_matrix,
                f,
                shape(a[0]),
            ),
    ensures
        maps.len() == a.len(),
        forall|c: int| 0 <= c < a.len() ==> (#[trigger] maps[c]).same(&a[c]),
{
    let rows = a[0].rows as int;
    let columns = a[0].columns as int;
    assert(gathered_matrix.rows == num_channels) by (nonlinear_arith)
        requires
            gathered_matrix.rows == 1 * 1 * num_channels,
    ;
    assert forall|c: int| 0 <= c < a.len() implies (#[trigger] maps[c]).same(&a[c]) by {
        assert(unpacked(maps[c], gathered_matrix, c, shape(a[0])));
        assert(a[c].rows == rows && a[c].columns == columns);
        assert forall|k: int| 0 <= k < rows * columns implies maps[c].value@[k] == a[c].value@[k] by {
            lemma_split(k, rows, columns);
            let p = k % rows;
            let q = k / rows;
            lemma_join(p, q, columns, rows);
            assert(maps[c].at(p, q) == gathered_matrix.at(c, p * columns + q));
            assert(gathered_matrix.at(c, p * columns + q) == gathered(
                a,
                shape(a[0]),
                (1, 1),
                (1, 1),
                (0, 0),
                c,
                p * columns + q,
            ));
        }
        assert(maps[c].value@ =~= a[c].value@);
    }
}

/// `get_filters` and `im2col` flatten a filter in the same order: gathering the kernels
/// of filter `f`, one per channel, with a single window and no padding gives back row `f`
/// of the filter matrix as the one column.
pub proof fn lemma_kernel_round_trip(
    filters: Matrix,
    filter_size: (usize, usize),
    num_channels: usize,
    kernels: Seq<Matrix>,
    f: int,
    stride_size: (usize, usize),
    gathered_matrix: Matrix,
)
    requires
        filters.wf(),
        filters.columns == filter_len(filter_size, num_channels),
        kernels.len() == filters.rows * num_channels,
        forall|g: int, c: int|
            0 <= g < filters.rows && 0 <= c < num_channels ==> #[trigger] kernel(
                kernels[g * num_channels + c],
                filters,
                g,
                c,
                filter_size,
            ),
        0 <= f < filters.rows,
        is_gathered(
            gathered_matrix,
            kernels.subrange(f * num_channels, f * num_channels + num_channels),
            (1, 1),
            filter_size,
            num_channels,
            stride_size,
            (0, 0),
        ),
    ensures
        gathered_matrix.rows == filters.columns,
        gathered_matrix.columns == 1,
        forall|i: int| 0 <= i < filters.columns ==> #[trigger] gathered_matrix.at(i, 0) == filters.at(
            f,
            i,
        ),
{
    let per = filter_size.0 * filter_size.1;
    let nc = num_channels as int;
    let sub = kernels.subrange(f * nc, f * nc + nc);
    assert(nc >= 1 && per >= 1 && filter_size.0 >= 1 && filter_size.1 >= 1) by (nonlinear_arith)
        requires
            per * nc >= 1,
            per == filter_size.0 * filter_size.1,
    ;
    assert(f * nc + nc <= filters.rows * nc) by (nonlinear_arith)
        requires
            0 <= f < filters.rows,
            nc >= 1,
    ;
    assert forall|i: int| 0 <= i < filters.columns implies #[trigger] gathered_matrix.at(i, 0)
        == filters.at(f, i) by {
        assert(per * nc == nc * per) by (nonlinear_arith);
        lemma_split(i, per, nc);
        let c = i / per;
        let within = i % per;
        assert(filter_size.1 * filter_size.0 == per) by (nonlinear_arith)
            requires
                per == filter_size.0 * filter_size.1,
        ;
        lemma_split(within, filter_size.1 as int, filter_size.0 as int);
        let fr = within / filter_size.1 as int;
        let fc = within % filter_size.1 as int;
        assert(c * per == per * c) by (nonlinear_arith);
        assert(fr * filter_size.1 == filter_size.1 * fr) by (nonlinear_arith);
        assert(sub[c] == kernels[f * nc + c]);
        assert(kernel(kernels[f * nc + c], filters, f, c, filter_size));
        assert(gathered_matrix.at(i, 0) == gathered(
            sub,
            (1, 1),
            filter_size,
            stride_size,
            (0, 0),
            i,
            0,
        ));
        assert(source(0, stride_size.0, fr, 0) == fr);
        assert(source(0, stride_size.1, fc, 0) == fc);
        assert(sub[c].at(fr, fc) == filters.at(f, c * per + fr * filter_size.1 + fc));
    }
}

/// Why a forward pass refuses its operands: as `gather_check` sets out, and then with
/// `InvalidShape` when the filter responses, one row per filter and one column per
/// window, cannot be addressed. Otherwise the window size.
pub open spec fn forward_check(
    conv: Conv2D,
    input: Seq<Matrix>,
    stride: (usize, usize),
    padding: (usize, usize, usize, usize),
) -> Result<(usize, usize), NnError> {
    match gather_check(conv, input, stride, padding) {
        Err(e) => Err(e),
        Ok(w) => if valid_shape(conv.num_filters as int, w.0 * w.1) {
            Ok(w)
        } else {
            Err(NnError::InvalidShape)
        },
    }
}

/// Column `j` of the gathered input: the pixels under window `j`, channel by channel,
/// row by row, `+0.0` in the padding.
pub open spec fn window_column(
    conv: Conv2D,
    input: Seq<Matrix>,
    window_size: (usize, usize),
    stride: (usize, usize),
    padding: (usize, usize, usize, usize),
    j: int,
) -> Seq<u32> {
    Seq::new(
        filter_len(conv.filter_size, conv.num_channels) as nat,
        |i: int| gathered(input, window_size, conv.filter_size, stride, (padding.0, padding.2), i, j),
    )
}

/// `m` is output map `f` of a forward pass: a `window_size` map whose element `(p, q)` is
/// `finish` of the filter's response at window `(p, q)`, the filter's bias, and the
/// filter's area; the response is the `dot` of row `f` of the filters with that
/// window's column.
pub open spec fn forward_map<D: Fn(Vec<u32>, Vec<u32>) -> u32, B: Fn(u32, u32, usize) -> u32>(
    m: Matrix,
    conv: Conv2D,
    input: Seq<Matrix>,
    window_size: (usize, usize),
    stride: (usize, usize),
    padding: (usize, usize, usize, usize),
    dot: D,
    finish: B,
    f: int,
) -> bool {
    &&& m.wf()
    &&& m.rows == window_size.0
    &&& m.columns == window_size.1
    &&& forall|p: int, q: int|
        0 <= p < m.rows && 0 <= q < m.columns ==> finished_response(
            dot,
            finish,
            row_of(conv.filters, f),
            window_column(conv, input, window_size, stride, padding, p * window_size.1 + q),
            conv.bias.value@[f],
            (conv.filter_size.0 * conv.filter_size.1) as usize,
            #[trigger] m.at(p, q),
        )
}

/// `y` is what `finish` returns for some `dot` of `row` and `column`, with `bias` and
/// `area`.
pub open spec fn finished_response<D: Fn(Vec<u32>, Vec<u32>) -> u32, B: Fn(u32, u32, usize) -> u32>(
    dot: D,
    finish: B,
    row: Seq<u32>,
    column: Seq<u32>,
    bias: u32,
    area: usize,
    y: u32,
) -> bool {
    exists|x: u32| #[trigger] dot_of(dot, row, column, x) && finish.ensures((x, bias, area), y)
}

/// Applies `finish` to each element of `m`, with `bias` and `area` as its other
/// arguments.
fn finish_map<B: Fn(u32, u32, usize) -> u32>(m: &Matrix, bias: u32, area: usize, finish: &B) -> (r:
    Matrix)
    requires
        m.wf(),
        forall|x: u32, y: u32, n: usize| finish.requires((x, y, n)),
    ensures
        r.wf(),
        r.rows == m.rows,
        r.columns == m.columns,
        forall|k: int|
            0 <= k < r.value@.len() ==> finish.ensures(
                (m.value@[k], bias, area),
                #[trigger] r.value@[k],
            ),
{
    let n = m.value.len();
    let mut value: Vec<u32> = Vec::with_capacity(n);
    let mut k: usize = 0;
    while k < n
        invariant
            m.wf(),
            n == m.value@.len(),
            k <= n,
            value@.len() == k,
            forall|x: u32, y: u32, n: usize| finish.requires((x, y, n)),
            forall|t: int|
                0 <= t < k ==> finish.ensures((m.value@[t], bias, area), #[trigger] value@[t]),
        decreases n - k,
    {
        value.push(finish(m.value[k], bias, area));
        k += 1;
    }
    Matrix { rows: m.rows, columns: m.columns, value }
}

/// The forward pass: gathers the input with `im2col`, multiplies the filters with it
/// (each response the `dot` of a filter row and a window column), splits the responses
/// into one map per filter with `row2im`, and passes each response through `finish` with
/// the filter's bias and area (a division by the area followed by the bias, for the
/// layer's own normalisation). Fails as `forward_check` sets out.
pub fn feedforward<D: Fn(Vec<u32>, Vec<u32>) -> u32, B: Fn(u32, u32, usize) -> u32>(
    conv: &Conv2D,
    input: &[Matrix],
    stride: (usize, usize),
    padding: (usize, usize, usize, usize),
    dot: &D,
    finish: &B,
) -> (r: Result<Vec<Matrix>, NnError>)
    requires
        conv.wf(),
        forall|c: int| 0 <= c < input@.len() ==> (#[trigger] input@[c]).wf(),
        input@.len() >= 1 ==> padded(input@[0].rows, padding.0, padding.1) <= usize::MAX,
        input@.len() >= 1 ==> padded(input@[0].columns, padding.2, padding.3) <= usize::MAX,
        forall|x: Vec<u32>, y: Vec<u32>| dot.requires((x, y)),
        forall|x: u32, y: u32, n: usize| finish.requires((x, y, n)),
    ensures
        forward_check(*conv, input@, stride, padding) matches Err(e) ==> r == Err::<
            Vec<Matrix>,
            NnError,
        >(e),
        forward_check(*conv, input@, stride, padding) matches Ok(w) ==> (r matches Ok(maps)
            && maps@.len() == conv.num_filters && forall|f: int|
            0 <= f < conv.num_filters ==> #[trigger] forward_map(
                maps@[f],
                *conv,
                input@,
                w,
                stride,
                padding,
                *dot,
                *finish,
                f,
            )),
{
    let (gathered_input, window_size) = match gather_input(conv, input, stride, padding) {
        Ok(p) => p,
        Err(e) => {
            return Err(e);
        },
    };
    let responses = match matrix::multiply(&conv.filters, &gathered_input, dot) {
        Ok(m) => m,
        Err(e) => {
            return Err(e);
        },
    };
    let maps = match row2im(&responses, window_size) {
        Ok(maps) => maps,
        Err(e) => {
            return Err(e);
        },
    };
    proof {
        lemma_grows(conv.filter_size.0 * conv.filter_size.1, conv.num_channels as int);
        assert(conv.num_channels >= 1) by (nonlinear_arith)
            requires
                conv.filter_size.0 * conv.filter_size.1 * conv.num_channels >= 1,
        ;
    }
    let area = conv.filter_size.0 * conv.filter_size.1;
    let mut out: Vec<Matrix> = Vec::with_capacity(conv.num_filters);
    let mut f: usize = 0;
    while f < conv.num_filters
        invariant
            conv.wf(),
            f <= conv.num_filters,
            maps@.len() == conv.num_filters,
            responses.rows == conv.num_filters,
            forall|g: int|
                0 <= g < conv.num_filters ==> #[trigger] unpacked(
                    maps@[g],
                    responses,
                    g,
                    window_size,
                ),
            forall|x: u32, y: u32, n: usize| finish.requires((x, y, n)),
            out@.len() == f,
            forall|g: int|
                0 <= g < f ==> {
                    &&& (#[trigger] out@[g]).wf()
                    &&& out@[g].rows == maps@[g].rows
                    &&& out@[g].columns == maps@[g].columns
                    &&& forall|k: int|
                        0 <= k < out@[g].value@.len() ==> finish.ensures(
                            (maps@[g].value@[k], conv.bias.value@[g], area),
                            #[trigger] out@[g].value@[k],
                        )
                },
        decreases conv.num_filters - f,
    {
        proof {
            crate::index::lemma_position(0, f as int, 1, conv.num_filters as int);
            assert(unpacked(maps@[f as int], responses, f as int, window_size));
        }
        out.push(finish_map(&maps[f], conv.bias.value[f], area, finish));
        f += 1;
    }
    proof {
        let w = window_size;
        assert forall|f: int| 0 <= f < conv.num_filters implies #[trigger] forward_map(
            out@[f],
            *conv,
            input@,
            w,
            stride,
            padding,
            *dot,
            *finish,
            f,
        ) by {
            assert(unpacked(maps@[f], responses, f, w));
            assert(out@[f].wf() && out@[f].rows == w.0 && out@[f].columns == w.1);
            assert forall|p: int, q: int| 0 <= p < out@[f].rows && 0 <= q < out@[f].columns implies finished_response(
                *dot,
                *finish,
                row_of(conv.filters, f),
                window_column(*conv, input@, w, stride, padding, p * w.1 + q),
                conv.bias.value@[f],
                (conv.filter_size.0 * conv.filter_size.1) as usize,
                #[trigger] out@[f].at(p, q),
            ) by {
                let j = p * w.1 + q;
                crate::index::lemma_join(p, q, w.1 as int, w.0 as int);
                crate::index::lemma_position(p, q, w.0 as int, w.1 as int);
                let x = maps@[f].at(p, q);
                assert(x == responses.at(f, j));
                assert(column_of(gathered_input, j) =~= window_column(*conv, input@, w, stride, padding, j));
                assert(dot_of(*dot, row_of(conv.filters, f), column_of(gathered_input, j), responses.at(f, j)));
                assert(dot_of(
                    *dot,
                    row_of(conv.filters, f),
                    window_column(*conv, input@, w, stride, padding, j),
                    x,
                ));
                assert(out@[f].at(p, q) == out@[f].value@[q * w.0 + p]);
                assert(finish.ensures(
                    (maps@[f].value@[q * w.0 + p], conv.bias.value@[f], area),
                    out@[f].value@[q * w.0 + p],
                ));
                assert(finish.ensures(
                    (x, conv.bias.value@[f], (conv.filter_size.0 * conv.filter_size.1) as usize),
                    out@[f].at(p, q),
                ));
            }
        }
    }
    Ok(out)
}

/// `c` has `a`'s sizes and is `a` and `b` combined element by element with `op`.
pub open spec fn layers_combined<F: Fn(u32, u32) -> u32>(c: Conv2D, a: Conv2D, b: Conv2D, op: F) -> bool {
    &&& c.wf()
    &&& c.num_channels == a.num_channels
    &&& c.num_filters == a.num_filters
    &&& c.filter_size == a.filter_size
    &&& combined(c.filters, a.filters, b.filters, op)
    &&& combined(c.bias, a.bias, b.bias, op)
}

/// `c` has `a`'s sizes and is `a` with `op` applied to every parameter.
pub open spec fn layer_mapped<F: Fn(u32) -> u32>(c: Conv2D, a: Conv2D, op: F) -> bool {
    &&& c.wf()
    &&& c.num_channels == a.num_channels
    &&& c.num_filters == a.num_filters
    &&& c.filter_size == a.filter_size
    &&& mapped(c.filters, a.filters, op)
    &&& mapped(c.bias, a.bias, op)
}

} // verus!
