//! Facts about flat indices that split into a quotient and a remainder.
use vstd::arithmetic::div_mod::{lemma_fundamental_div_mod, lemma_fundamental_div_mod_converse};
use vstd::prelude::*;

verus! {

/// `q * d + r` with `r < d` splits back into `q` and `r`, and stays below `n * d` when `q < n`.
pub proof fn lemma_join(q: int, r: int, d: int, n: int)
    requires
        0 <= q < n,
        0 <= r < d,
    ensures
        (q * d + r) / d == q,
        (q * d + r) % d == r,
        0 <= q * d + r < n * d,
{
    lemma_fundamental_div_mod_converse(q * d + r, d, q, r);
    assert(0 <= q * d + r < n * d) by (nonlinear_arith)
        requires
            0 <= q < n,
            0 <= r < d,
    ;
}

/// A flat index below `d * n` splits into a quotient below `n` and a remainder below `d`.
pub proof fn lemma_split(x: int, d: int, n: int)
    requires
        0 <= x < d * n,
        0 < d,
    ensures
        0 <= x / d < n,
        0 <= x % d < d,
        x == (x / d) * d + x % d,
{
    lemma_fundamental_div_mod(x, d);
    assert((x / d) * d == d * (x / d)) by (nonlinear_arith);
    assert(0 <= x / d) by (nonlinear_arith)
        requires
            0 <= x,
            0 < d,
    ;
    assert(x / d < n) by (nonlinear_arith)
        requires
            x == d * (x / d) + x % d,
            0 <= x % d,
            x < d * n,
            0 < d,
    ;
}

/// A column-major position `(i, j)` of a `rows` by `columns` matrix lies inside its buffer.
pub proof fn lemma_position(i: int, j: int, rows: int, columns: int)
    requires
        0 <= i < rows,
        0 <= j < columns,
    ensures
        0 <= j * rows + i < rows * columns,
{
    lemma_join(j, i, rows, columns);
    assert(columns * rows == rows * columns) by (nonlinear_arith);
}

} // verus!
