//! Row-major offsets: where the cell at a coordinate sits in the buffer.

use vstd::prelude::*;

verus! {

/// Linear offset of the cell at column `x`, row `y` in a grid `width` wide.
pub open spec fn offset_of(width: nat, x: nat, y: nat) -> nat {
    x + y * width
}

/// The offset `x + y * width` as a machine integer when it lies below `len`,
/// and `None` when it does not, whether or not it would fit in a `usize`.
pub(crate) fn linear_offset(width: usize, x: usize, y: usize, len: usize) -> (off: Option<usize>)
    ensures
        match off {
            Some(o) => o == offset_of(width as nat, x as nat, y as nat) && o < len,
            None => offset_of(width as nat, x as nat, y as nat) >= len,
        },
{
    if x >= len {
        return None;
    }
    if width == 0 || y == 0 {
        assert(y * width == 0) by (nonlinear_arith)
            requires
                width == 0 || y == 0,
        ;
        return Some(x);
    }
    let room: usize = len - x;
    // The offset is below `len` exactly when `y * width < room`.
    let rows_below: usize = (room - 1) / width;
    if y > rows_below {
        assert(y * width >= room) by (nonlinear_arith)
            requires
                y > (room - 1) / (width as int),
                width > 0,
                room > 0,
        ;
        None
    } else {
        assert(y * width <= room - 1) by (nonlinear_arith)
            requires
                0 <= y <= (room - 1) / (width as int),
                width > 0,
                room > 0,
        ;
        Some(x + y * width)
    }
}

/// An offset below a buffer's length fits in a `usize`, and so does its
/// row part.
pub(crate) proof fn lemma_offset_fits(width: nat, x: nat, y: nat, len: nat)
    requires
        offset_of(width, x, y) < len,
        len <= usize::MAX,
    ensures
        y * width <= usize::MAX,
        x + y * width <= usize::MAX,
{
}

/// Row `row` of a `width` x `height` grid lies inside its buffer.
pub(crate) proof fn lemma_row_fits(width: nat, height: nat, row: nat)
    requires
        row < height,
    ensures
        row * width + width <= width * height,
{
    assert(row * width + width <= width * height) by (nonlinear_arith)
        requires
            row < height,
    ;
}

/// Splitting an offset into row and column and putting it together again
/// gives the offset back.
pub(crate) proof fn lemma_coords(width: nat, k: int)
    requires
        width > 0,
        0 <= k,
    ensures
        0 <= k % (width as int) < width,
        0 <= k / (width as int),
        k == (k / (width as int)) * width + k % (width as int),
{
    vstd::arithmetic::div_mod::lemma_fundamental_div_mod(k, width as int);
    vstd::arithmetic::div_mod::lemma_div_pos_is_pos(k, width as int);
    assert((width as int) * (k / (width as int)) == (k / (width as int)) * width)
        by (nonlinear_arith);
}

/// An offset before the start of row `rows` lies in an earlier row.
pub(crate) proof fn lemma_row_of(width: nat, rows: nat, k: int)
    requires
        width > 0,
        0 <= k < rows * width,
    ensures
        0 <= k / (width as int) < rows,
{
    lemma_coords(width, k);
    let q = k / (width as int);
    assert(q < rows) by (nonlinear_arith)
        requires
            q * width <= k,
            k < rows * width,
            width > 0,
    ;
}

/// The offset of column `x` in row `y` splits back into `y` and `x`.
pub(crate) proof fn lemma_coords_of(width: int, y: int, x: int)
    requires
        0 <= x < width,
        0 <= y,
    ensures
        (y * width + x) / width == y,
        (y * width + x) % width == x,
{
    vstd::arithmetic::div_mod::lemma_fundamental_div_mod_converse(y * width + x, width, y, x);
}

} // verus!
