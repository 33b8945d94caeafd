use vstd::prelude::*;
use crate::mono::{glyph_bit, GLYPH_SIDE};
use crate::pixel::{byte_col, byte_index, byte_row, lemma_byte_index, lemma_byte_index_bound};
use crate::text_data::{TextData, LINE_HEIGHT};

verus! {

/// Width in pixels of the gray-level text image.
pub const GRAY_WIDTH: usize = 500;

/// Number of text lines of the gray-level text image; line `b` is drawn with
/// gray-level limit `b`.
pub const GRAY_LINES: usize = 3;

/// Number of bytes of the gray-level text image (500x96 RGB).
pub const GRAY_BYTES: usize = 144000;

/// Number of bit planes of a gray-level glyph that the renderer reads.
pub const GRAY_PLANES: usize = 3;

/// One line of gray-level text: its characters and, for each of them, the
/// bit planes of its 32x32 glyph.
pub struct GrayLine {
    pub chars: Vec<char>,
    pub glyphs: Vec<[[u32; 32]; 3]>,
}

/// Horizontal advance of a character: 32 pixels for characters above `~`
/// (wide glyphs), 16 pixels for the others.
pub open spec fn advance(c: char) -> int {
    if c > '~' {
        32
    } else {
        16
    }
}

/// Left edge of glyph `k` of a line: the sum of the advances of the
/// characters before it.
pub open spec fn glyph_x(chars: Seq<char>, k: int) -> int
    decreases k,
{
    if k <= 0 {
        0
    } else {
        glyph_x(chars, k - 1) + advance(chars[k - 1])
    }
}

/// Every glyph of the line, drawn 32 pixels wide at its left edge, lies
/// within the 500 pixels of the image.
pub open spec fn gray_fits(chars: Seq<char>) -> bool {
    forall|k: int| 0 <= k < chars.len() ==> #[trigger] glyph_x(chars, k) + 32 <= GRAY_WIDTH
}

/// The contribution of bit `7 - offset` of a gray value: plane
/// `min(offset, limit)` of the glyph decides whether the bit is set.
pub open spec fn gray_bit(g: [[u32; 32]; 3], limit: int, row: int, i: int, offset: int) -> u8 {
    let plane = if offset < limit {
        offset
    } else {
        limit
    };
    if glyph_bit(g[plane][row], i) {
        1u8 << ((7 - offset) as u8)
    } else {
        0
    }
}

/// Gray value that a glyph gives to its pixel (`row`, `i`), built from the
/// bits of the first `n` offsets (the full value has `n == 8`).
pub open spec fn gray_level(g: [[u32; 32]; 3], limit: int, row: int, i: int, n: int) -> u8
    decreases n,
{
    if n <= 0 {
        0
    } else {
        gray_level(g, limit, row, i, n - 1) | gray_bit(g, limit, row, i, n - 1)
    }
}

/// Gray value of the pixel at (`row`, `col`) of a line: the bitwise or of
/// the values that the first `k` glyphs covering that column give it.
pub open spec fn gray_cover(
    glyphs: Seq<[[u32; 32]; 3]>,
    chars: Seq<char>,
    limit: int,
    row: int,
    col: int,
    k: int,
) -> u8
    decreases k,
{
    if k <= 0 {
        0
    } else {
        let x = glyph_x(chars, k - 1);
        gray_cover(glyphs, chars, limit, row, col, k - 1) | if x <= col < x + 32 {
            gray_level(glyphs[k - 1], limit, row, col - x, 8)
        } else {
            0u8
        }
    }
}

/// Gray value of the pixel at image row `row` and column `col`: line
/// `row / 32`, drawn with limit equal to its index.
pub open spec fn gray_pixel(lines: Seq<GrayLine>, row: int, col: int) -> u8 {
    let b = row / (LINE_HEIGHT as int);
    gray_cover(
        lines[b].glyphs@,
        lines[b].chars@,
        b,
        row % (LINE_HEIGHT as int),
        col,
        lines[b].chars@.len() as int,
    )
}

/// Byte `k` of the gray-level text image: all three channels carry the gray
/// value of the pixel.
pub open spec fn gray_byte(lines: Seq<GrayLine>, k: int) -> u8 {
    gray_pixel(lines, byte_row(k, GRAY_WIDTH as int), byte_col(k, GRAY_WIDTH as int))
}

/// The lines given to `gray8_text` are well formed: three of them, each
/// with one glyph per character, and each fitting the image width.
pub open spec fn gray_lines_valid(lines: Seq<GrayLine>) -> bool {
    &&& lines.len() == GRAY_LINES
    &&& forall|b: int|
        0 <= b < lines.len() ==> (#[trigger] lines[b]).glyphs@.len() == lines[b].chars@.len()
            && gray_fits(lines[b].chars@)
}

/// Gray level named in the caption of line `line`: 2, then doubling from
/// line to line.
pub open spec fn caption_level(line: int) -> int
    decreases line,
{
    if line <= 0 {
        2
    } else {
        2 * caption_level(line - 1)
    }
}

/// Caption of gray-level line `line`: the fixed greeting, the word
/// `graylevel` and the line's gray level as a decimal digit.
pub open spec fn gray_caption_chars(line: int) -> Seq<char> {
    seq!['今', '天', '又', '是', '新', '的', '一', '天', ' ', 'g', 'r', 'a', 'y', 'l', 'e', 'v', 'e', 'l', ' ']
        + seq![('0' as int + caption_level(line)) as char]
}

/// The characters of the caption of gray-level line `line` (0, 1 or 2).
pub fn gray_caption(line: usize) -> (chars: Vec<char>)
    requires
        line < GRAY_LINES,
    ensures
        chars@ == gray_caption_chars(line as int),
        chars@ == seq![
            '今',
            '天',
            '又',
            '是',
            '新',
            '的',
            '一',
            '天',
            ' ',
            'g',
            'r',
            'a',
            'y',
            'l',
            'e',
            'v',
            'e',
            'l',
            ' ',
        ] + seq![
            if line == 0 {
                '2'
            } else if line == 1 {
                '4'
            } else {
                '8'
            },
        ],
{
    let mut chars: Vec<char> = vec!['今', '天', '又', '是', '新', '的', '一', '天', ' ', 'g', 'r', 'a', 'y', 'l', 'e', 'v', 'e', 'l', ' '];
    let digit: char = if line == 0 {
        '2'
    } else if line == 1 {
        '4'
    } else {
        '8'
    };
    proof {
        reveal_with_fuel(caption_level, 3);
    }
    chars.push(digit);
    chars
}

/// Glyphs are laid out from the left edge: the first starts at 0, and each
/// next one starts 16 pixels (characters up to `~`) or 32 pixels (characters
/// above `~`) further right.
pub proof fn lemma_glyph_layout(chars: Seq<char>, k: int)
    requires
        0 <= k < chars.len(),
    ensures
        glyph_x(chars, 0) == 0,
        chars[k] <= '~' ==> glyph_x(chars, k + 1) == glyph_x(chars, k) + 16,
        chars[k] > '~' ==> glyph_x(chars, k + 1) == glyph_x(chars, k) + 32,
{
}

/// Bit `i` of a glyph row is set exactly when `(row_bits >> i) & 1 == 1`.
pub proof fn lemma_glyph_bit(row_bits: u32, i: u32)
    requires
        i < 32,
    ensures
        glyph_bit(row_bits, i as int) == ((row_bits >> i) & 1 == 1),
{
    assert((row_bits & (1u32 << i) != 0) == ((row_bits >> i) & 1 == 1)) by (bit_vector)
        requires
            i < 32,
    ;
}

/// Bit `t` of the gray value a glyph gives to pixel (`row`, `i`) after the
/// first `n` offsets is set exactly when offset `7 - t` is among them and
/// bit plane `min(7 - t, limit)` has the pixel set: offset `o` controls bit
/// `7 - o`, reading plane `o` up to the limit and plane `limit` beyond.
pub proof fn lemma_gray_level_bits(g: [[u32; 32]; 3], limit: int, row: int, i: int, n: int, t: u8)
    requires
        0 <= n <= 8,
        t < 8,
    ensures
        (gray_level(g, limit, row, i, n) >> t) & 1 == if 7 - t < n && glyph_bit(
            g[if 7 - t < limit {
                7 - t
            } else {
                limit
            }][row],
            i,
        ) {
            1u8
        } else {
            0u8
        },
    decreases n,
{
    if n == 0 {
        assert((0u8 >> t) & 1 == 0) by (bit_vector);
    } else {
        lemma_gray_level_bits(g, limit, row, i, n - 1, t);
        let prev = gray_level(g, limit, row, i, n - 1);
        let s = (7 - (n - 1)) as u8;
        assert(s < 8);
        if glyph_bit(g[if n - 1 < limit { n - 1 } else { limit }][row], i) {
            assert(((prev | (1u8 << s)) >> t) & 1 == if s == t {
                1u8
            } else {
                (prev >> t) & 1
            }) by (bit_vector)
                requires
                    s < 8,
                    t < 8,
            ;
        } else {
            assert(((prev | 0u8) >> t) & 1 == (prev >> t) & 1) by (bit_vector);
        }
    }
}

/// Where glyphs overlap, the pixel carries every bit that any covering glyph
/// gives it: the value of each of the first `k` glyphs covering the pixel is
/// included (by bits) in the pixel's value.
pub proof fn lemma_gray_cover_includes_each_glyph(
    glyphs: Seq<[[u32; 32]; 3]>,
    chars: Seq<char>,
    limit: int,
    row: int,
    col: int,
    k: int,
    j: int,
)
    requires
        0 <= j < k,
        glyph_x(chars, j) <= col < glyph_x(chars, j) + 32,
    ensures
        gray_cover(glyphs, chars, limit, row, col, k) | gray_level(
            glyphs[j],
            limit,
            row,
            col - glyph_x(chars, j),
            8,
        ) == gray_cover(glyphs, chars, limit, row, col, k),
    decreases k,
{
    let level = gray_level(glyphs[j], limit, row, col - glyph_x(chars, j), 8);
    let prev = gray_cover(glyphs, chars, limit, row, col, k - 1);
    let x = glyph_x(chars, k - 1);
    let cur = if x <= col < x + 32 {
        gray_level(glyphs[k - 1], limit, row, col - x, 8)
    } else {
        0u8
    };
    if j == k - 1 {
        assert(((prev | level) | level) == (prev | level)) by (bit_vector);
    } else {
        lemma_gray_cover_includes_each_glyph(glyphs, chars, limit, row, col, k - 1, j);
        assert(((prev | cur) | level) == (prev | cur)) by (bit_vector)
            requires
                prev | level == prev,
        ;
    }
}

/// The pixel carries no bit that no covering glyph gives it: if the value of
/// every one of the first `k` glyphs covering the pixel lies within the bits
/// of `m`, so does the pixel's value. With the previous law, the pixel's
/// value is the bitwise or of the covering glyphs' values.
pub proof fn lemma_gray_cover_within_glyph_bits(
    glyphs: Seq<[[u32; 32]; 3]>,
    chars: Seq<char>,
    limit: int,
    row: int,
    col: int,
    k: int,
    m: u8,
)
    requires
        forall|j: int|
            0 <= j < k && #[trigger] glyph_x(chars, j) <= col < glyph_x(chars, j) + 32
                ==> gray_level(glyphs[j], limit, row, col - glyph_x(chars, j), 8) | m == m,
    ensures
        gray_cover(glyphs, chars, limit, row, col, k) | m == m,
    decreases k,
{
    if k <= 0 {
        assert(0u8 | m == m) by (bit_vector);
    } else {
        lemma_gray_cover_within_glyph_bits(glyphs, chars, limit, row, col, k - 1, m);
        let prev = gray_cover(glyphs, chars, limit, row, col, k - 1);
        let x = glyph_x(chars, k - 1);
        let cur = if x <= col < x + 32 {
            gray_level(glyphs[k - 1], limit, row, col - x, 8)
        } else {
            0u8
        };
        assert(cur | m == m) by {
            if !(x <= col < x + 32) {
                assert(0u8 | m == m) by (bit_vector);
            }
        }
        assert((prev | cur) | m == m) by (bit_vector)
            requires
                prev | m == m,
                cur | m == m,
        ;
    }
}

/// Horizontal advance of `c`.
pub fn char_advance(c: char) -> (a: usize)
    ensures
        a == advance(c),
        c <= '~' ==> a == 16,
        c > '~' ==> a == 32,
{
    if c > '~' {
        32
    } else {
        16
    }
}

/// Whether every glyph of a line with characters `chars` lies within the
/// width of the gray-level image.
pub fn gray_line_fits(chars: &Vec<char>) -> (b: bool)
    ensures
        b == gray_fits(chars@),
        b == forall|k: int|
            0 <= k < chars@.len() ==> #[trigger] glyph_x(chars@, k) + 32 <= GRAY_WIDTH,
{
    let n = chars.len();
    let mut x: usize = 0;
    let mut k: usize = 0;
    while k < n
        invariant
            k <= n,
            n == chars@.len(),
            x == glyph_x(chars@, k as int),
            x <= GRAY_WIDTH,
            forall|j: int| 0 <= j < k ==> #[trigger] glyph_x(chars@, j) + 32 <= GRAY_WIDTH,
        decreases n - k,
    {
        if x + GLYPH_SIDE > GRAY_WIDTH {
            assert(!(glyph_x(chars@, k as int) + 32 <= GRAY_WIDTH));
            return false;
        }
        x = x + char_advance(chars[k]);
        k = k + 1;
    }
    true
}

/// Gray value that glyph `g` gives to its pixel (`row`, `i`) when drawn with
/// gray-level limit `limit`.
pub fn glyph_gray_level(g: &[[u32; 32]; 3], limit: usize, row: usize, i: usize) -> (v: u8)
    requires
        limit < GRAY_PLANES,
        row < GLYPH_SIDE,
        i < GLYPH_SIDE,
    ensures
        v == gray_level(*g, limit as int, row as int, i as int, 8),
{
    let mut v: u8 = 0;
    let mut offset: usize = 0;
    while offset < 8
        invariant
            offset <= 8,
            limit < GRAY_PLANES,
            row < GLYPH_SIDE,
            i < GLYPH_SIDE,
            v == gray_level(*g, limit as int, row as int, i as int, offset as int),
        decreases 8 - offset,
    {
        let plane = if offset < limit {
            offset
        } else {
            limit
        };
        let bit: u8 = if g[plane][row] & (1u32 << (i as u32)) != 0 {
            1u8 << ((7 - offset) as u8)
        } else {
            0
        };
        assert(bit == gray_bit(*g, limit as int, row as int, i as int, offset as int));
        v = v | bit;
        offset = offset + 1;
    }
    v
}

/// Gray value of the pixel (`row`, `col`) of one line drawn with limit
/// `limit`.
fn line_gray_pixel(line: &GrayLine, limit: usize, row: usize, col: usize) -> (v: u8)
    requires
        limit < GRAY_PLANES,
        row < GLYPH_SIDE,
        line.glyphs@.len() == line.chars@.len(),
        gray_fits(line.chars@),
    ensures
        v == gray_cover(
            line.glyphs@,
            line.chars@,
            limit as int,
            row as int,
            col as int,
            line.chars@.len() as int,
        ),
{
    let n = line.chars.len();
    let mut v: u8 = 0;
    let mut x: usize = 0;
    let mut k: usize = 0;
    while k < n
        invariant
            k <= n,
            n == line.chars@.len(),
            line.glyphs@.len() == n,
            gray_fits(line.chars@),
            limit < GRAY_PLANES,
            row < GLYPH_SIDE,
            x == glyph_x(line.chars@, k as int),
            x <= GRAY_WIDTH,
            v == gray_cover(
                line.glyphs@,
                line.chars@,
                limit as int,
                row as int,
                col as int,
                k as int,
            ),
        decreases n - k,
    {
        assert(glyph_x(line.chars@, k as int) + 32 <= GRAY_WIDTH);
        if x <= col && col < x + GLYPH_SIDE {
            let level = glyph_gray_level(&line.glyphs[k], limit, row, col - x);
            v = v | level;
        } else {
            assert(v | 0u8 == v) by (bit_vector);
        }
        x = x + char_advance(line.chars[k]);
        k = k + 1;
    }
    v
}

/// Renders three lines of gray-level glyphs into a 500x96 RGB image, line
/// `b` occupying rows `32 * b` to `32 * b + 31` and drawn with gray-level
/// limit `b`. Where glyphs overlap, their gray values are or-ed.
pub fn gray8_text(lines: &Vec<GrayLine>) -> (t: TextData)
    requires
        gray_lines_valid(lines@),
    ensures
        t.width == GRAY_WIDTH,
        t.data@.len() == GRAY_BYTES,
        GRAY_BYTES == GRAY_WIDTH * LINE_HEIGHT * GRAY_LINES * 3,
        forall|k: int| 0 <= k < t.data@.len() ==> #[trigger] t.data@[k] == gray_byte(lines@, k),
        forall|row: int, col: int, c: int|
            0 <= row < LINE_HEIGHT * GRAY_LINES && 0 <= col < GRAY_WIDTH && 0 <= c < 3
                ==> #[trigger] t.data@[byte_index(GRAY_WIDTH as int, row, col, c)] == gray_cover(
                lines@[row / 32].glyphs@,
                lines@[row / 32].chars@,
                row / 32,
                row % 32,
                col,
                lines@[row / 32].chars@.len() as int,
            ),
{
    let mut data: Vec<u8> = Vec::with_capacity(GRAY_BYTES);
    let mut row: usize = 0;
    while row < LINE_HEIGHT * GRAY_LINES
        invariant
            row <= LINE_HEIGHT * GRAY_LINES,
            gray_lines_valid(lines@),
            data@.len() == row * GRAY_WIDTH * 3,
            forall|k: int| 0 <= k < data@.len() ==> #[trigger] data@[k] == gray_byte(lines@, k),
        decreases LINE_HEIGHT * GRAY_LINES - row,
    {
        let b = row / LINE_HEIGHT;
        let r = row % LINE_HEIGHT;
        let line = &lines[b];
        assert(line.glyphs@.len() == line.chars@.len() && gray_fits(line.chars@)) by {
            assert(lines@[b as int] == *line);
        }
        let mut col: usize = 0;
        while col < GRAY_WIDTH
            invariant
                row < LINE_HEIGHT * GRAY_LINES,
                b == row / LINE_HEIGHT,
                r == row % LINE_HEIGHT,
                b < GRAY_LINES,
                *line == lines@[b as int],
                line.glyphs@.len() == line.chars@.len(),
                gray_fits(line.chars@),
                col <= GRAY_WIDTH,
                data@.len() == (row * GRAY_WIDTH + col) * 3,
                forall|k: int| 0 <= k < data@.len() ==> #[trigger] data@[k] == gray_byte(lines@, k),
            decreases GRAY_WIDTH - col,
        {
            let v = line_gray_pixel(line, b, r, col);
            proof {
                lemma_byte_index(GRAY_WIDTH as int, row as int, col as int, 0);
                lemma_byte_index(GRAY_WIDTH as int, row as int, col as int, 1);
                lemma_byte_index(GRAY_WIDTH as int, row as int, col as int, 2);
                assert(v == gray_pixel(lines@, row as int, col as int));
            }
            data.push(v);
            data.push(v);
            data.push(v);
            col = col + 1;
        }
        row = row + 1;
    }
    let t = TextData { width: GRAY_WIDTH, data };
    assert forall|row: int, col: int, c: int|
        0 <= row < LINE_HEIGHT * GRAY_LINES && 0 <= col < GRAY_WIDTH && 0 <= c < 3 implies #[trigger] t.data@[byte_index(
        GRAY_WIDTH as int,
        row,
        col,
        c,
    )] == gray_cover(
        lines@[row / 32].glyphs@,
        lines@[row / 32].chars@,
        row / 32,
        row % 32,
        col,
        lines@[row / 32].chars@.len() as int,
    ) by {
        lemma_byte_index_bound(GRAY_WIDTH as int, (LINE_HEIGHT * GRAY_LINES) as int, row, col, c);
        lemma_byte_index(GRAY_WIDTH as int, row, col, c);
    }
    t
}

/// A pixel that no glyph of a line covers stays black.
pub proof fn lemma_uncovered_pixel_is_black(
    glyphs: Seq<[[u32; 32]; 3]>,
    chars: Seq<char>,
    limit: int,
    row: int,
    col: int,
    k: int,
)
    requires
        forall|j: int|
            0 <= j < k ==> !(#[trigger] glyph_x(chars, j) <= col < glyph_x(chars, j) + 32),
    ensures
        gray_cover(glyphs, chars, limit, row, col, k) == 0,
    decreases k,
{
    if k > 0 {
        lemma_uncovered_pixel_is_black(glyphs, chars, limit, row, col, k - 1);
        let x = glyph_x(chars, k - 1);
        assert(!(x <= col < x + 32));
        assert(0u8 | 0u8 == 0u8) by (bit_vector);
    }
}

} // verus!
