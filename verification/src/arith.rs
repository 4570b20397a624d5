//! Integer facts behind the torus: wrapping a coordinate that moved by one,
//! and passing between a cell's coordinates and its row-major index.

use vstd::arithmetic::div_mod::{
    lemma_fundamental_div_mod, lemma_fundamental_div_mod_converse, lemma_mod_add_multiples_vanish,
    lemma_mod_self_0, lemma_small_mod,
};
use vstd::prelude::*;

verus! {

/// A coordinate `x` of an axis of length `n`, moved by at most one and taken
/// modulo `n`: the last coordinate is followed by the first, and the first is
/// preceded by the last. Moving forward by `n - 1` is moving back by one.
pub proof fn lemma_wrap(x: int, n: int)
    requires
        0 <= x < n,
    ensures
        x % n == x,
        (x + 1) % n == (if x + 1 < n { x + 1 } else { 0 }),
        (x - 1) % n == (if x > 0 { x - 1 } else { n - 1 }),
        (x + (n - 1)) % n == (x - 1) % n,
{
    lemma_small_mod(x as nat, n as nat);
    if x + 1 < n {
        lemma_small_mod((x + 1) as nat, n as nat);
    } else {
        lemma_mod_self_0(n);
    }
    lemma_mod_add_multiples_vanish(x - 1, n);
    assert(n + (x - 1) == x + (n - 1));
    if x > 0 {
        lemma_small_mod((x - 1) as nat, n as nat);
    } else {
        lemma_small_mod((n - 1) as nat, n as nat);
    }
}

/// The row-major index of a cell inside a `width` by `height` grid lies
/// inside the grid's sequence of cells, and gives the cell's row and column
/// back by division.
pub proof fn lemma_index_of_cell(row: int, col: int, width: int, height: int)
    requires
        0 <= row < height,
        0 <= col < width,
    ensures
        0 <= row * width + col < width * height,
        (row * width + col) / width == row,
        (row * width + col) % width == col,
{
    assert(0 <= row * width && row * width + width <= width * height) by (nonlinear_arith)
        requires
            0 <= row < height,
            0 < width,
    ;
    lemma_fundamental_div_mod_converse(row * width + col, width, row, col);
}

/// Every index into the cells of a `width` by `height` grid is the row-major
/// index of one cell inside the grid.
pub proof fn lemma_cell_of_index(i: int, width: int, height: int)
    requires
        0 < width,
        0 <= i < width * height,
    ensures
        0 <= i / width < height,
        0 <= i % width < width,
        (i / width) * width + i % width == i,
{
    lemma_fundamental_div_mod(i, width);
    assert(0 <= i % width < width && 0 <= i / width < height && (i / width) * width + i % width
        == i) by (nonlinear_arith)
        requires
            0 < width,
            0 <= i < width * height,
            i == width * (i / width) + (i % width),
    ;
}

} // verus!
