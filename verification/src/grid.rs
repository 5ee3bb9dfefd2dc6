use vstd::prelude::*;

use vstd::arithmetic::div_mod::lemma_fundamental_div_mod;
use vstd::arithmetic::mul::lemma_mul_is_commutative;
use vstd::arithmetic::mul::lemma_mul_is_distributive_add_other_way;

verus! {

/// The raster scan of the pixel buffer: pixels are stored row-major with
/// the origin at the top left, advancing column-first, then row by row.

/// Map a linear buffer index to its `(column, row)` position.
pub fn index_to_position(index: usize, cols: usize) -> (p: (usize, usize))
    requires
        cols > 0,
    ensures
        p.0 < cols,
        p.1 * cols + p.0 == index,
{
    proof {
        lemma_fundamental_div_mod(index as int, cols as int);
        lemma_mul_is_commutative(cols as int, index as int / cols as int);
    }
    (index % cols, index / cols)
}

/// One step of the scan: one column to the right, wrapping to the start of
/// the next row at the end of a row.  The linear index of the cursor, row
/// times width plus column, grows by exactly one.
pub fn advance(x: usize, y: usize, cols: usize) -> (p: (usize, usize))
    requires
        x < cols,
        y * cols + x + 1 <= usize::MAX,
    ensures
        p.0 < cols,
        p.1 * cols + p.0 == y * cols + x + 1,
{
    proof {
        assert(y <= y * cols) by (nonlinear_arith)
            requires
                cols >= 1,
                y >= 0;
        lemma_mul_is_distributive_add_other_way(cols as int, y as int, 1);
    }
    if x + 1 == cols {
        (0, y + 1)
    } else {
        (x + 1, y)
    }
}

/// The scan order of a `rows` by `cols` buffer: the `k`-th entry is the
/// `(column, row)` position of the `k`-th stored pixel.  The scan walks the
/// cursor exactly as the renderer's fill loop does and ends, provably, at
/// the start of the row one past the last.
pub fn raster_positions(rows: usize, cols: usize) -> (v: Vec<(usize, usize)>)
    requires
        cols > 0,
        rows * cols <= usize::MAX,
    ensures
        v@.len() == rows * cols,
        forall|k: int|
            0 <= k < v@.len() ==> (#[trigger] v@[k]).1 * cols + v@[k].0 == k && v@[k].0 < cols
                && v@[k].1 < rows,
{
    let total: usize = rows * cols;
    let mut v: Vec<(usize, usize)> = Vec::new();
    let mut x: usize = 0;
    let mut y: usize = 0;
    let mut i: usize = 0;
    while i < total
        invariant
            cols > 0,
            total == rows * cols,
            i <= total,
            v@.len() == i,
            y * cols + x == i,
            x < cols,
            forall|k: int|
                0 <= k < i ==> (#[trigger] v@[k]).1 * cols + v@[k].0 == k && v@[k].0 < cols
                    && v@[k].1 < rows,
        decreases total - i,
    {
        proof {
            assert(y < rows) by (nonlinear_arith)
                requires
                    y * cols + x == i,
                    i < rows * cols,
                    0 <= x,
                    0 <= y,
                    cols > 0;
            assert(y <= y * cols) by (nonlinear_arith)
                requires
                    cols >= 1,
                    y >= 0;
            lemma_mul_is_distributive_add_other_way(cols as int, y as int, 1);
        }
        v.push((x, y));
        if x + 1 == cols {
            x = 0;
            y = y + 1;
        } else {
            x = x + 1;
        }
        i = i + 1;
    }
    proof {
        // the cursor comes to rest exactly at the start of row `rows`
        assert(x == 0 && y == rows) by (nonlinear_arith)
            requires
                y * cols + x == rows * cols,
                0 <= x < cols,
                0 <= y,
                cols > 0,
                rows >= 0;
    }
    v
}

} // verus!
