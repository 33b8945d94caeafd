use vstd::prelude::*;
use crate::pixel::{byte_col, byte_index, byte_row, lemma_byte_index, lemma_byte_index_bound};
use crate::text_data::{TextData, LINE_HEIGHT};

verus! {

/// Width in pixels of a monochrome text line.
pub const MONO_WIDTH: usize = 300;

/// Number of bytes of a monochrome text line (300x32 RGB).
pub const MONO_BYTES: usize = 28800;

/// Side length in pixels of a bitmap glyph, which is also the advance of
/// every glyph of a monochrome line.
pub const GLYPH_SIDE: usize = 32;

/// Whether bit `i` (counted from the least significant bit) of one glyph row
/// is set.
pub open spec fn glyph_bit(row_bits: u32, i: int) -> bool {
    row_bits & (1u32 << (i as u32)) != 0
}

/// Whether the pixel at (`row`, `col`) of a monochrome line holding the
/// glyphs `glyphs`, each 32x32 and placed side by side from the left, is
/// ink. Glyph `g` gives column `i` of its row `j` by bit `i` of `g[j]`.
pub open spec fn mono_ink(glyphs: Seq<[u32; 32]>, row: int, col: int) -> bool {
    &&& col / 32 < glyphs.len()
    &&& glyph_bit(glyphs[col / 32][row], col % 32)
}

/// Byte `k` of a monochrome line: black (0) on ink, white (255) elsewhere.
pub open spec fn mono_byte(glyphs: Seq<[u32; 32]>, k: int) -> u8 {
    if mono_ink(glyphs, byte_row(k, MONO_WIDTH as int), byte_col(k, MONO_WIDTH as int)) {
        0
    } else {
        255
    }
}

/// Renders one line of bitmap glyphs, black on white, into a 300x32 RGB
/// image. The glyphs must fit side by side into the 300 pixels of the line.
pub fn mono_text(glyphs: &Vec<[u32; 32]>) -> (t: TextData)
    requires
        glyphs@.len() * GLYPH_SIDE <= MONO_WIDTH,
    ensures
        t.width == MONO_WIDTH,
        t.data@.len() == MONO_BYTES,
        MONO_BYTES == MONO_WIDTH * LINE_HEIGHT * 3,
        forall|k: int| 0 <= k < t.data@.len() ==> #[trigger] t.data@[k] == mono_byte(glyphs@, k),
        forall|row: int, col: int, c: int|
            0 <= row < LINE_HEIGHT && 0 <= col < MONO_WIDTH && 0 <= c < 3 ==> #[trigger] t.data@[byte_index(
                MONO_WIDTH as int,
                row,
                col,
                c,
            )] == if col / 32 < glyphs@.len() && glyphs@[col / 32][row] & (1u32 << ((col
                % 32) as u32)) != 0 {
                0u8
            } else {
                255u8
            },
{
    let n = glyphs.len();
    let mut data: Vec<u8> = Vec::with_capacity(MONO_BYTES);
    let mut row: usize = 0;
    while row < LINE_HEIGHT
        invariant
            row <= LINE_HEIGHT,
            n == glyphs@.len(),
            data@.len() == row * MONO_WIDTH * 3,
            forall|k: int| 0 <= k < data@.len() ==> #[trigger] data@[k] == mono_byte(glyphs@, k),
        decreases LINE_HEIGHT - row,
    {
        let mut col: usize = 0;
        while col < MONO_WIDTH
            invariant
                row < LINE_HEIGHT,
                col <= MONO_WIDTH,
                n == glyphs@.len(),
                data@.len() == (row * MONO_WIDTH + col) * 3,
                forall|k: int| 0 <= k < data@.len() ==> #[trigger] data@[k] == mono_byte(glyphs@, k),
            decreases MONO_WIDTH - col,
        {
            let g = col / GLYPH_SIDE;
            let i = col % GLYPH_SIDE;
            let ink = g < n && glyphs[g][row] & (1u32 << (i as u32)) != 0;
            let v: u8 = if ink { 0 } else { 255 };
            proof {
                lemma_byte_index(MONO_WIDTH as int, row as int, col as int, 0);
                lemma_byte_index(MONO_WIDTH as int, row as int, col as int, 1);
                lemma_byte_index(MONO_WIDTH as int, row as int, col as int, 2);
                assert(ink == mono_ink(glyphs@, row as int, col as int));
            }
            data.push(v);
            data.push(v);
            data.push(v);
            col = col + 1;
        }
        row = row + 1;
    }
    let t = TextData { width: MONO_WIDTH, data };
    assert forall|row: int, col: int, c: int|
        0 <= row < LINE_HEIGHT && 0 <= col < MONO_WIDTH && 0 <= c < 3 implies #[trigger] t.data@[byte_index(
        MONO_WIDTH as int,
        row,
        col,
        c,
    )] == if col / 32 < glyphs@.len() && glyphs@[col / 32][row] & (1u32 << ((col % 32) as u32))
        != 0 {
        0u8
    } else {
        255u8
    } by {
        lemma_byte_index_bound(MONO_WIDTH as int, LINE_HEIGHT as int, row, col, c);
        lemma_byte_index(MONO_WIDTH as int, row, col, c);
    }
    t
}

} // verus!
