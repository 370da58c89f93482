use vstd::bytes::{spec_u32_from_le_bytes, spec_u32_to_le_bytes, u32_from_le_bytes, u32_to_le_bytes};
use vstd::prelude::*;

use crate::error::NnError;

verus! {

/// The bit pattern of the single-precision value `+0.0`.
pub const ZERO: u32 = 0;

/// A dense matrix in column-major order: element `(i, j)` is `value[j * rows + i]`.
///
/// Each element is the IEEE-754 bit pattern of a single-precision float.
pub struct Matrix {
    pub rows: usize,
    pub columns: usize,
    pub value: Vec<u32>,
}

/// A shape that a matrix can have: both dimensions positive, and the element count
/// within `usize`.
pub open spec fn valid_shape(rows: int, columns: int) -> bool {
    &&& rows >= 1
    &&& columns >= 1
    &&& rows * columns <= usize::MAX
}

impl Matrix {
    /// The shape is valid and the buffer holds exactly `rows * columns` values.
    pub open spec fn wf(&self) -> bool {
        &&& valid_shape(self.rows as int, self.columns as int)
        &&& self.value@.len() == self.rows * self.columns
    }

    /// The element in row `i` and column `j`.
    pub open spec fn at(&self, i: int, j: int) -> u32 {
        self.value@[j * self.rows + i]
    }

    /// Same shape and same elements.
    pub open spec fn same(&self, other: &Matrix) -> bool {
        &&& self.rows == other.rows
        &&& self.columns == other.columns
        &&& self.value@ == other.value@
    }

    /// A well-formed `rows` by `columns` matrix whose every element is `+0.0`.
    pub open spec fn is_zeros(&self, rows: nat, columns: nat) -> bool {
        &&& self.wf()
        &&& self.rows == rows
        &&& self.columns == columns
        &&& forall|k: int| 0 <= k < self.value@.len() ==> self.value@[k] == ZERO
    }
}

impl Clone for Matrix {
    fn clone(&self) -> (r: Self)
        ensures
            r.same(self),
    {
        Matrix { rows: self.rows, columns: self.columns, value: self.value.clone() }
    }
}

/// Builds a `rows` by `columns` matrix filled with `+0.0`. Fails with `InvalidShape`
/// when a dimension is zero or the element count does not fit in `usize`.
pub fn new(rows: usize, columns: usize) -> (r: Result<Matrix, NnError>)
    ensures
        valid_shape(rows as int, columns as int) ==> (r matches Ok(m) && m.is_zeros(
            rows as nat,
            columns as nat,
        )),
        !valid_shape(rows as int, columns as int) ==> r == Err::<Matrix, NnError>(
            NnError::InvalidShape,
        ),
{
    if rows == 0 || columns == 0 {
        return Err(NnError::InvalidShape);
    }
    let n = match rows.checked_mul(columns) {
        Some(n) => n,
        None => {
            return Err(NnError::InvalidShape);
        },
    };
    let mut value: Vec<u32> = Vec::with_capacity(n);
    let mut k: usize = 0;
    while k < n
        invariant
            k <= n,
            value@.len() == k,
            forall|t: int| 0 <= t < k ==> value@[t] == ZERO,
        decreases n - k,
    {
        value.push(ZERO);
        k += 1;
    }
    Ok(Matrix { rows, columns, value })
}

/// The little-endian encoding of a sequence of 32-bit words, four bytes per word.
pub open spec fn le_bytes_of(words: Seq<u32>, bytes: Seq<u8>) -> bool {
    &&& bytes.len() == 4 * words.len()
    &&& forall|k: int|
        0 <= k < words.len() ==> #[trigger] bytes.subrange(4 * k, 4 * k + 4)
            == spec_u32_to_le_bytes(words[k])
}

/// The words that a little-endian byte buffer holds, four bytes per word.
pub open spec fn words_of(bytes: Seq<u8>, words: Seq<u32>) -> bool {
    &&& bytes.len() == 4 * words.len()
    &&& forall|k: int|
        0 <= k < words.len() ==> #[trigger] words[k] == spec_u32_from_le_bytes(
            bytes.subrange(4 * k, 4 * k + 4),
        )
}

/// The persisted form of `a`: each value as four little-endian bytes, in buffer order,
/// with no header and no shape.
pub fn to_bytes(a: &Matrix) -> (r: Vec<u8>)
    requires
        4 * a.value@.len() <= usize::MAX,
    ensures
        le_bytes_of(a.value@, r@),
{
    let n = a.value.len();
    let mut r: Vec<u8> = Vec::with_capacity(4 * n);
    let mut k: usize = 0;
    while k < n
        invariant
            n == a.value@.len(),
            4 * n <= usize::MAX,
            k <= n,
            r@.len() == 4 * k,
            forall|t: int|
                0 <= t < k ==> #[trigger] r@.subrange(4 * t, 4 * t + 4) == spec_u32_to_le_bytes(
                    a.value@[t],
                ),
        decreases n - k,
    {
        let word = u32_to_le_bytes(a.value[k]);
        let ghost before = r@;
        r.push(word[0]);
        r.push(word[1]);
        r.push(word[2]);
        r.push(word[3]);
        proof {
            assert(r@.subrange(4 * k, 4 * k + 4) =~= word@);
            assert forall|t: int| 0 <= t < k implies #[trigger] r@.subrange(4 * t, 4 * t + 4)
                == spec_u32_to_le_bytes(a.value@[t]) by {
                assert(r@.subrange(4 * t, 4 * t + 4) =~= before.subrange(4 * t, 4 * t + 4));
            }
        }
        k += 1;
    }
    r
}

/// Reads a matrix of `template`'s shape from its persisted form. Fails with
/// `SizeMismatch` unless `bytes` holds exactly four bytes per element of `template`.
pub fn from_bytes(template: &Matrix, bytes: &[u8]) -> (r: Result<Matrix, NnError>)
    requires
        template.wf(),
    ensures
        bytes@.len() != 4 * template.value@.len() ==> r == Err::<Matrix, NnError>(
            NnError::SizeMismatch,
        ),
        bytes@.len() == 4 * template.value@.len() ==> (r matches Ok(m) && m.wf() && m.rows
            == template.rows && m.columns == template.columns && words_of(bytes@, m.value@)),
{
    let n = template.value.len();
    let len = bytes.len();
    if len % 4 != 0 || len / 4 != n {
        return Err(NnError::SizeMismatch);
    }
    let mut value: Vec<u32> = Vec::with_capacity(n);
    let mut k: usize = 0;
    while k < n
        invariant
            n == template.value@.len(),
            len == bytes@.len(),
            len == 4 * n,
            k <= n,
            value@.len() == k,
            forall|t: int|
                0 <= t < k ==> #[trigger] value@[t] == spec_u32_from_le_bytes(
                    bytes@.subrange(4 * t, 4 * t + 4),
                ),
        decreases n - k,
    {
        let word = vstd::slice::slice_subrange(bytes, 4 * k, 4 * k + 4);
        value.push(u32_from_le_bytes(word));
        k += 1;
    }
    Ok(Matrix { rows: template.rows, columns: template.columns, value })
}

/// Saving a matrix and loading it back with a template of the same shape reproduces
/// its values exactly.
pub proof fn lemma_bytes_round_trip(a: Matrix, template: Matrix, bytes: Seq<u8>, loaded: Seq<u32>)
    requires
        a.value@.len() == template.value@.len(),
        le_bytes_of(a.value@, bytes),
        words_of(bytes, loaded),
    ensures
        loaded == a.value@,
{
    vstd::bytes::lemma_auto_spec_u32_to_from_le_bytes();
    assert forall|k: int| 0 <= k < loaded.len() implies loaded[k] == a.value@[k] by {
        assert(bytes.subrange(4 * k, 4 * k + 4) == spec_u32_to_le_bytes(a.value@[k]));
    }
    assert(loaded =~= a.value@);
}

/// Builds a `rows` by `columns` matrix whose elements are drawn, in buffer order, by
/// `sample`; the caller supplies the sampler (independent standard-normal values, for
/// a randomly initialised parameter). Fails with `InvalidShape` as `new` does.
pub fn new_gaussian_noise<F: Fn() -> u32>(rows: usize, columns: usize, sample: &F) -> (r: Result<
    Matrix,
    NnError,
>)
    requires
        sample.requires(()),
    ensures
        valid_shape(rows as int, columns as int) ==> (r matches Ok(m) && m.wf() && m.rows == rows
            && m.columns == columns && forall|k: int|
            0 <= k < m.value@.len() ==> sample.ensures((), #[trigger] m.value@[k])),
        !valid_shape(rows as int, columns as int) ==> r == Err::<Matrix, NnError>(
            NnError::InvalidShape,
        ),
{
    if rows == 0 || columns == 0 {
        return Err(NnError::InvalidShape);
    }
    let n = match rows.checked_mul(columns) {
        Some(n) => n,
        None => {
            return Err(NnError::InvalidShape);
        },
    };
    let mut value: Vec<u32> = Vec::with_capacity(n);
    let mut k: usize = 0;
    while k < n
        invariant
            k <= n,
            value@.len() == k,
            sample.requires(()),
            forall|t: int| 0 <= t < k ==> sample.ensures((), #[trigger] value@[t]),
        decreases n - k,
    {
        value.push(sample());
        k += 1;
    }
    Ok(Matrix { rows, columns, value })
}

/// Combines two matrices of one shape element by element with `op` (single-precision
/// addition, for the sum of two matrices). Fails with `ShapeMismatch` unless the shapes
/// agree.
pub fn add<F: Fn(u32, u32) -> u32>(a: &Matrix, b: &Matrix, op: &F) -> (r: Result<Matrix, NnError>)
    requires
        a.wf(),
        b.wf(),
        forall|x: u32, y: u32| op.requires((x, y)),
    ensures
        a.rows != b.rows || a.columns != b.columns ==> r == Err::<Matrix, NnError>(
            NnError::ShapeMismatch,
        ),
        a.rows == b.rows && a.columns == b.columns ==> (r matches Ok(m) && combined(m, *a, *b, *op)),
{
    if a.rows != b.rows || a.columns != b.columns {
        return Err(NnError::ShapeMismatch);
    }
    let n = a.value.len();
    let mut value: Vec<u32> = Vec::with_capacity(n);
    let mut k: usize = 0;
    while k < n
        invariant
            a.wf(),
            b.wf(),
            a.value@.len() == b.value@.len(),
            n == a.value@.len(),
            k <= n,
            value@.len() == k,
            forall|x: u32, y: u32| op.requires((x, y)),
            forall|t: int|
                0 <= t < k ==> op.ensures((a.value@[t], b.value@[t]), #[trigger] value@[t]),
        decreases n - k,
    {
        value.push(op(a.value[k], b.value[k]));
        k += 1;
    }
    Ok(Matrix { rows: a.rows, columns: a.columns, value })
}

/// `m` has the shape of `a` and `b`, and each element is `op` of the elements of `a` and
/// `b` at the same place.
pub open spec fn combined<F: Fn(u32, u32) -> u32>(m: Matrix, a: Matrix, b: Matrix, op: F) -> bool {
    &&& m.wf()
    &&& m.rows == a.rows
    &&& m.columns == a.columns
    &&& m.value@.len() == a.value@.len()
    &&& forall|k: int|
        0 <= k < m.value@.len() ==> op.ensures((a.value@[k], b.value@[k]), #[trigger] m.value@[k])
}

/// `m` has the shape of `a`, and each element is `op` of the element of `a` at the same
/// place.
pub open spec fn mapped<F: Fn(u32) -> u32>(m: Matrix, a: Matrix, op: F) -> bool {
    &&& m.wf()
    &&& m.rows == a.rows
    &&& m.columns == a.columns
    &&& m.value@.len() == a.value@.len()
    &&& forall|k: int| 0 <= k < m.value@.len() ==> op.ensures((a.value@[k],), #[trigger] m.value@[k])
}

/// Applies `op` to every element (a single-precision product with a scalar, for
/// scaling, or a sum with one, for a shift).
pub fn map<F: Fn(u32) -> u32>(a: &Matrix, op: &F) -> (r: Matrix)
    requires
        a.wf(),
        forall|x: u32| op.requires((x,)),
    ensures
        mapped(r, *a, *op),
{
    let n = a.value.len();
    let mut value: Vec<u32> = Vec::with_capacity(n);
    let mut k: usize = 0;
    while k < n
        invariant
            a.wf(),
            n == a.value@.len(),
            k <= n,
            value@.len() == k,
            forall|x: u32| op.requires((x,)),
            forall|t: int| 0 <= t < k ==> op.ensures((a.value@[t],), #[trigger] value@[t]),
        decreases n - k,
    {
        value.push(op(a.value[k]));
        k += 1;
    }
    Matrix { rows: a.rows, columns: a.columns, value }
}

/// Row `i` of `a`, left to right.
pub open spec fn row_of(a: Matrix, i: int) -> Seq<u32> {
    Seq::new(a.columns as nat, |k: int| a.at(i, k))
}

/// Column `j` of `b`, top to bottom.
pub open spec fn column_of(b: Matrix, j: int) -> Seq<u32> {
    Seq::new(b.rows as nat, |k: int| b.at(k, j))
}

/// `x` is what `dot` returns for some pair of vectors holding `row` and `column`.
pub open spec fn dot_of<F: Fn(Vec<u32>, Vec<u32>) -> u32>(
    dot: F,
    row: Seq<u32>,
    column: Seq<u32>,
    x: u32,
) -> bool {
    exists|r: Vec<u32>, c: Vec<u32>| r@ == row && c@ == column && #[trigger] dot.ensures((r, c), x)
}

/// `m` is the product of `a` and `b`: `a.rows` by `b.columns`, with element `(i, j)` the
/// `dot` of row `i` of `a` and column `j` of `b`.
pub open spec fn product<F: Fn(Vec<u32>, Vec<u32>) -> u32>(m: Matrix, a: Matrix, b: Matrix, dot: F) -> bool {
    &&& m.wf()
    &&& m.rows == a.rows
    &&& m.columns == b.columns
    &&& forall|i: int, j: int|
        0 <= i < m.rows && 0 <= j < m.columns ==> #[trigger] dot_of(
            dot,
            row_of(a, i),
            column_of(b, j),
            m.at(i, j),
        )
}

/// Why `multiply` refuses its operands: `ShapeMismatch` unless `a` has as many columns
/// as `b` has rows, else `InvalidShape` when the product's shape is not valid.
pub open spec fn multiply_check(a: Matrix, b: Matrix) -> Result<(), NnError> {
    if a.columns != b.rows {
        Err(NnError::ShapeMismatch)
    } else if !valid_shape(a.rows as int, b.columns as int) {
        Err(NnError::InvalidShape)
    } else {
        Ok(())
    }
}

/// Copies row `i` of `a`.
fn copy_row(a: &Matrix, i: usize) -> (r: Vec<u32>)
    requires
        a.wf(),
        i < a.rows,
    ensures
        r@ == row_of(*a, i as int),
{
    let mut r: Vec<u32> = Vec::with_capacity(a.columns);
    let mut k: usize = 0;
    while k < a.columns
        invariant
            a.wf(),
            i < a.rows,
            k <= a.columns,
            r@ =~= row_of(*a, i as int).subrange(0, k as int),
        decreases a.columns - k,
    {
        proof {
            crate::index::lemma_position(i as int, k as int, a.rows as int, a.columns as int);
        }
        r.push(a.value[k * a.rows + i]);
        k += 1;
    }
    r
}

/// Copies column `j` of `b`.
fn copy_column(b: &Matrix, j: usize) -> (r: Vec<u32>)
    requires
        b.wf(),
        j < b.columns,
    ensures
        r@ == column_of(*b, j as int),
{
    let mut r: Vec<u32> = Vec::with_capacity(b.rows);
    let mut k: usize = 0;
    while k < b.rows
        invariant
            b.wf(),
            j < b.columns,
            k <= b.rows,
            r@ =~= column_of(*b, j as int).subrange(0, k as int),
        decreases b.rows - k,
    {
        proof {
            crate::index::lemma_position(k as int, j as int, b.rows as int, b.columns as int);
        }
        r.push(b.value[j * b.rows + k]);
        k += 1;
    }
    r
}

/// The matrix product of `a` and `b`, each element the `dot` of a row of `a` and a column
/// of `b` (the single-precision dot product, for a plain product). Fails as
/// `multiply_check` sets out.
pub fn multiply<F: Fn(Vec<u32>, Vec<u32>) -> u32>(a: &Matrix, b: &Matrix, dot: &F) -> (r: Result<
    Matrix,
    NnError,
>)
    requires
        a.wf(),
        b.wf(),
        forall|x: Vec<u32>, y: Vec<u32>| dot.requires((x, y)),
    ensures
        multiply_check(*a, *b) matches Err(e) ==> r == Err::<Matrix, NnError>(e),
        multiply_check(*a, *b) is Ok ==> (r matches Ok(m) && product(m, *a, *b, *dot)),
{
    if a.columns != b.rows {
        return Err(NnError::ShapeMismatch);
    }
    let n = match a.rows.checked_mul(b.columns) {
        Some(n) => n,
        None => {
            return Err(NnError::InvalidShape);
        },
    };
    let mut value: Vec<u32> = Vec::with_capacity(n);
    let mut idx: usize = 0;
    while idx < n
        invariant
            a.wf(),
            b.wf(),
            n == a.rows * b.columns,
            idx <= n,
            value@.len() == idx,
            forall|x: Vec<u32>, y: Vec<u32>| dot.requires((x, y)),
            forall|t: int|
                0 <= t < idx ==> dot_of(
                    *dot,
                    row_of(*a, t % (a.rows as int)),
                    column_of(*b, t / (a.rows as int)),
                    #[trigger] value@[t],
                ),
        decreases n - idx,
    {
        proof {
            crate::index::lemma_split(idx as int, a.rows as int, b.columns as int);
        }
        let row = copy_row(a, idx % a.rows);
        let column = copy_column(b, idx / a.rows);
        let ghost row_copy = row;
        let ghost column_copy = column;
        let x = dot(row, column);
        proof {
            assert(dot.ensures((row_copy, column_copy), x));
        }
        value.push(x);
        idx += 1;
    }
    let m = Matrix { rows: a.rows, columns: b.columns, value };
    proof {
        assert forall|i: int, j: int| 0 <= i < m.rows && 0 <= j < m.columns implies #[trigger] dot_of(
            *dot,
            row_of(*a, i),
            column_of(*b, j),
            m.at(i, j),
        ) by {
            crate::index::lemma_join(j, i, a.rows as int, b.columns as int);
        }
    }
    Ok(m)
}

} // verus!
