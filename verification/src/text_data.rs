use vstd::prelude::*;
use vstd::arithmetic::div_mod::{lemma_add_mod_noop, lemma_fundamental_div_mod, lemma_fundamental_div_mod_converse};
use crate::pixel::{byte_channel, byte_col, byte_index, byte_row, lemma_byte_index};

verus! {

/// Height in pixels of one line of rendered text.
pub const LINE_HEIGHT: usize = 32;

/// Side length, in pixels, of the square colour test pattern.
pub const DEMO_SIDE: usize = 300;

/// Number of bytes of the colour test pattern.
pub const DEMO_BYTES: usize = 270000;

/// An RGB image, row-major with three bytes per pixel, `width` pixels wide;
/// its height follows from the length of `data`.
pub struct TextData {
    pub width: usize,
    pub data: Vec<u8>,
}

/// A `TextData` placed on the screen: the image, the position of its top
/// left corner and the number of whole text lines it holds.
pub struct ImageGuard<'a> {
    pub text: &'a TextData,
    pub x: i32,
    pub y: i32,
    pub line_count: usize,
}

/// Which of the three channels is lit at (`row`, `col`) of the test pattern:
/// diagonal stripes ten pixels wide cycling red, green, blue.
pub open spec fn demo_stripe(row: int, col: int) -> int {
    (row / 10 + col / 10) % 3
}

/// Byte `k` of the test pattern: 255 in the lit channel, 0 elsewhere.
pub open spec fn demo_byte(k: int) -> u8 {
    if byte_channel(k) == demo_stripe(
        byte_row(k, DEMO_SIDE as int),
        byte_col(k, DEMO_SIDE as int),
    ) {
        255
    } else {
        0
    }
}

/// Number of whole text lines in an image of `len` bytes and `width` pixels
/// per row.
pub open spec fn line_count_of(len: int, width: int) -> int {
    len / width / 3 / (LINE_HEIGHT as int)
}

/// The number of text lines of an image is the number of whole 32-pixel
/// lines it holds: they take no more bytes than the image, and one more line
/// would not fit.
pub proof fn lemma_whole_lines_fit(len: int, width: int)
    requires
        len >= 0,
        width > 0,
    ensures
        line_count_of(len, width) >= 0,
        line_count_of(len, width) * (width * 3 * LINE_HEIGHT) <= len,
        len < (line_count_of(len, width) + 1) * (width * 3 * LINE_HEIGHT),
{
    let a = len / width;
    let b = a / 3;
    let c = b / 32;
    lemma_div_mul_le(len, width);
    lemma_div_mul_le(a, 3);
    lemma_div_mul_le(b, 32);
    assert(c * (width * 3 * 32) == ((c * 32) * 3) * width) by (nonlinear_arith);
    assert(((c * 32) * 3) * width <= (b * 3) * width) by (nonlinear_arith)
        requires
            c * 32 <= b,
            width > 0,
    ;
    assert((b * 3) * width <= a * width) by (nonlinear_arith)
        requires
            b * 3 <= a,
            width > 0,
    ;
    lemma_div_mul_gt(len, width);
    lemma_div_mul_gt(a, 3);
    lemma_div_mul_gt(b, 32);
    assert(len < (c + 1) * (width * 3 * 32)) by (nonlinear_arith)
        requires
            len < (a + 1) * width,
            a < (b + 1) * 3,
            b < (c + 1) * 32,
            width > 0,
            c >= 0,
    {
        assert(a + 1 <= (c + 1) * 96);
        assert((a + 1) * width <= ((c + 1) * 96) * width);
    }
}

/// Rounding down by division loses less than the divisor.
proof fn lemma_div_mul_gt(x: int, d: int)
    requires
        x >= 0,
        d > 0,
    ensures
        x < (x / d + 1) * d,
{
    lemma_fundamental_div_mod(x, d);
    assert(x < (x / d + 1) * d) by (nonlinear_arith)
        requires
            x == d * (x / d) + x % d,
            0 <= x % d < d,
    ;
}

/// Rounding down by division never overshoots.
proof fn lemma_div_mul_le(x: int, d: int)
    requires
        x >= 0,
        d > 0,
    ensures
        (x / d) * d <= x,
        x / d >= 0,
{
    lemma_fundamental_div_mod(x, d);
    assert(x / d >= 0) by (nonlinear_arith)
        requires
            x >= 0,
            d > 0,
            x == d * (x / d) + x % d,
            0 <= x % d < d,
    ;
}

/// Ten pixels to the right, and ten pixels down, the test pattern moves to
/// the next colour, red to green to blue to red.
pub proof fn lemma_demo_stripes_cycle(row: int, col: int)
    requires
        row >= 0,
        col >= 0,
    ensures
        demo_stripe(row, col + 10) == (demo_stripe(row, col) + 1) % 3,
        demo_stripe(row + 10, col) == (demo_stripe(row, col) + 1) % 3,
{
    lemma_div_plus_one_decade(col);
    lemma_div_plus_one_decade(row);
    lemma_add_mod_noop(row / 10 + col / 10, 1, 3);
}

/// The test pattern is made of uniform 10x10 blocks: every pixel has the
/// colour of the top left pixel of its block, and the block at the origin
/// is red.
pub proof fn lemma_demo_blocks_are_uniform(row: int, col: int)
    requires
        row >= 0,
        col >= 0,
    ensures
        demo_stripe(row, col) == demo_stripe(row - row % 10, col - col % 10),
        demo_stripe(0, 0) == 0,
{
    lemma_fundamental_div_mod(row, 10);
    lemma_fundamental_div_mod(col, 10);
    lemma_fundamental_div_mod_converse(row - row % 10, 10, row / 10, 0);
    lemma_fundamental_div_mod_converse(col - col % 10, 10, col / 10, 0);
}

/// Adding ten moves a number to the next multiple-of-ten block.
proof fn lemma_div_plus_one_decade(x: int)
    requires
        x >= 0,
    ensures
        (x + 10) / 10 == x / 10 + 1,
{
    lemma_fundamental_div_mod(x, 10);
    lemma_fundamental_div_mod_converse(x + 10, 10, x / 10 + 1, x % 10);
}

impl TextData {
    /// Builds the 300x300 colour test pattern: every pixel has exactly one
    /// channel at 255, channel `(row / 10 + col / 10) % 3`.
    pub fn demo() -> (t: TextData)
        ensures
            t.width == DEMO_SIDE,
            t.data@.len() == DEMO_BYTES,
            DEMO_BYTES == DEMO_SIDE * DEMO_SIDE * 3,
            forall|k: int| 0 <= k < t.data@.len() ==> #[trigger] t.data@[k] == demo_byte(k),
            forall|row: int, col: int, c: int|
                0 <= row < DEMO_SIDE && 0 <= col < DEMO_SIDE && 0 <= c < 3 ==> #[trigger] t.data@[byte_index(
                    DEMO_SIDE as int,
                    row,
                    col,
                    c,
                )] == if c == (row / 10 + col / 10) % 3 {
                    255u8
                } else {
                    0u8
                },
    {
        let mut data: Vec<u8> = Vec::new();
        let mut i: usize = 0;
        while i < DEMO_SIDE
            invariant
                i <= DEMO_SIDE,
                data@.len() == i * DEMO_SIDE * 3,
                forall|k: int| 0 <= k < data@.len() ==> #[trigger] data@[k] == demo_byte(k),
            decreases DEMO_SIDE - i,
        {
            let mut j: usize = 0;
            while j < DEMO_SIDE
                invariant
                    i < DEMO_SIDE,
                    j <= DEMO_SIDE,
                    data@.len() == (i * DEMO_SIDE + j) * 3,
                    forall|k: int| 0 <= k < data@.len() ==> #[trigger] data@[k] == demo_byte(k),
                decreases DEMO_SIDE - j,
            {
                let x: usize = (i / 10 + j / 10) % 3;
                let r: u8 = if x == 0 { 255 } else { 0 };
                let g: u8 = if x == 1 { 255 } else { 0 };
                let b: u8 = if x == 2 { 255 } else { 0 };
                proof {
                    lemma_byte_index(DEMO_SIDE as int, i as int, j as int, 0);
                    lemma_byte_index(DEMO_SIDE as int, i as int, j as int, 1);
                    lemma_byte_index(DEMO_SIDE as int, i as int, j as int, 2);
                }
                data.push(r);
                data.push(g);
                data.push(b);
                j = j + 1;
            }
            i = i + 1;
        }
        let t = TextData { width: DEMO_SIDE, data };
        assert forall|row: int, col: int, c: int|
            0 <= row < DEMO_SIDE && 0 <= col < DEMO_SIDE && 0 <= c < 3 implies #[trigger] t.data@[byte_index(
            DEMO_SIDE as int,
            row,
            col,
            c,
        )] == if c == (row / 10 + col / 10) % 3 {
            255u8
        } else {
            0u8
        } by {
            lemma_byte_index(DEMO_SIDE as int, row, col, c);
            assert(byte_index(DEMO_SIDE as int, row, col, c) < DEMO_BYTES) by (nonlinear_arith)
                requires
                    0 <= row < 300,
                    0 <= col < 300,
                    0 <= c < 3,
            ;
        }
        t
    }

    /// Places the image with its top left corner at (`x`, `y`), counting the
    /// whole text lines it holds.
    pub fn position<'a>(&'a self, x: i32, y: i32) -> (g: ImageGuard<'a>)
        requires
            self.width > 0,
        ensures
            *g.text == *self,
            g.x == x,
            g.y == y,
            g.line_count == line_count_of(self.data@.len() as int, self.width as int),
            g.line_count * (self.width * 3 * LINE_HEIGHT) <= self.data@.len(),
            self.data@.len() < (g.line_count + 1) * (self.width * 3 * LINE_HEIGHT),
    {
        let line_count = self.data.len() / self.width / 3 / LINE_HEIGHT;
        proof {
            lemma_whole_lines_fit(self.data@.len() as int, self.width as int);
        }
        ImageGuard { text: self, x, y, line_count }
    }
}

} // verus!
