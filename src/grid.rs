use vstd::prelude::*;
use vstd::arithmetic::div_mod::{lemma_fundamental_div_mod, lemma_fundamental_div_mod_converse, lemma_mod_pos_bound};

verus! {

/// A flat index into a `w`-wide, `h`-high row-major grid names the cell
/// `(k % w, k / w)`, and that cell lies inside the grid.
pub proof fn lemma_cell_of_index(k: int, w: int, h: int)
    requires
        w >= 0,
        h >= 0,
        0 <= k < w * h,
    ensures
        w > 0,
        0 <= k % w < w,
        0 <= k / w < h,
        k == (k / w) * w + k % w,
{
    assert(w > 0) by (nonlinear_arith)
        requires
            w >= 0,
            h >= 0,
            0 <= k < w * h,
    ;
    lemma_fundamental_div_mod(k, w);
    lemma_mod_pos_bound(k, w);
    let q = k / w;
    let r = k % w;
    assert(q * w == w * q) by (nonlinear_arith);
    assert(0 <= q < h) by (nonlinear_arith)
        requires
            k == w * q + r,
            0 <= r < w,
            0 <= k < w * h,
    ;
}

/// The cell `(x, y)` of a `w`-wide, `h`-high grid has flat index `y * w + x`,
/// which lies inside the grid and maps back to `(x, y)`.
pub proof fn lemma_index_of_cell(x: int, y: int, w: int, h: int)
    requires
        0 <= x < w,
        0 <= y < h,
    ensures
        0 <= y * w + x < w * h,
        (y * w + x) % w == x,
        (y * w + x) / w == y,
{
    assert(0 <= y * w + x < w * h) by (nonlinear_arith)
        requires
            0 <= x < w,
            0 <= y < h,
    ;
    lemma_fundamental_div_mod_converse(y * w + x, w, y, x);
}

} // verus!
