use vstd::prelude::*;
use vstd::arithmetic::div_mod::lemma_fundamental_div_mod_converse;

verus! {

/// Row of the pixel that byte `k` of a row-major RGB buffer of `width`
/// pixels per row belongs to.
pub open spec fn byte_row(k: int, width: int) -> int {
    (k / 3) / width
}

/// Column of the pixel that byte `k` of a row-major RGB buffer of `width`
/// pixels per row belongs to.
pub open spec fn byte_col(k: int, width: int) -> int {
    (k / 3) % width
}

/// Channel (0 red, 1 green, 2 blue) that byte `k` of an RGB buffer holds.
pub open spec fn byte_channel(k: int) -> int {
    k % 3
}

/// Index of channel `c` of the pixel at (`row`, `col`) in a row-major RGB
/// buffer of `width` pixels per row.
pub open spec fn byte_index(width: int, row: int, col: int, c: int) -> int {
    (row * width + col) * 3 + c
}

/// Decomposing the byte index of (`row`, `col`, `c`) gives back `row`, `col`
/// and `c`.
pub proof fn lemma_byte_index(width: int, row: int, col: int, c: int)
    requires
        width > 0,
        row >= 0,
        0 <= col < width,
        0 <= c < 3,
    ensures
        byte_index(width, row, col, c) / 3 == row * width + col,
        byte_channel(byte_index(width, row, col, c)) == c,
        byte_row(byte_index(width, row, col, c), width) == row,
        byte_col(byte_index(width, row, col, c), width) == col,
        0 <= byte_index(width, row, col, c),
{
    let k = byte_index(width, row, col, c);
    let p = row * width + col;
    assert(row * width >= 0) by (nonlinear_arith)
        requires
            row >= 0,
            width > 0,
    ;
    lemma_fundamental_div_mod_converse(k, 3, p, c);
    lemma_fundamental_div_mod_converse(p, width, row, col);
}

/// The byte index of any pixel in the first `rows` rows lies below
/// `rows * width * 3`.
pub proof fn lemma_byte_index_bound(width: int, rows: int, row: int, col: int, c: int)
    requires
        width > 0,
        0 <= row < rows,
        0 <= col < width,
        0 <= c < 3,
    ensures
        0 <= byte_index(width, row, col, c) < rows * width * 3,
        byte_index(width, row, col, c) + 3 - c <= rows * width * 3,
{
    assert((row * width + col) * 3 + c < rows * width * 3 && (row * width + col) * 3 + 3 <= rows
        * width * 3 && 0 <= (row * width + col) * 3 + c) by (nonlinear_arith)
        requires
            width > 0,
            0 <= row < rows,
            0 <= col < width,
            0 <= c < 3,
    ;
}

} // verus!
