use vstd::prelude::*;
use crate::text_data::{TextData, LINE_HEIGHT};

verus! {

/// Bytes of one 32-pixel-high text line of an RGB image `width` pixels wide.
pub open spec fn line_bytes(width: int) -> int {
    width * (LINE_HEIGHT as int) * 3
}

/// A black RGB image that grows by one 32-pixel text line at a time and
/// receives anti-aliased glyph pixels.
pub struct TextCanvas {
    pub width: usize,
    pub line_count: i32,
    pub data: Vec<u8>,
}

/// Whether the pixel (`x`, `y`) lies inside a canvas `width` pixels wide
/// holding `line_count` lines, as the canvas tests it.
pub open spec fn canvas_contains(width: usize, line_count: i32, x: i32, y: i32) -> bool {
    x >= 0 && y >= 0 && x < width as i32 && y < line_count * 32
}

/// Index of the red byte of pixel (`x`, `y`) in a canvas `width` pixels wide.
pub open spec fn canvas_index(width: usize, x: i32, y: i32) -> int {
    (y * width + x) * 3
}

/// `s` with the three bytes of the pixel starting at `i` set to `v`.
pub open spec fn set_pixel(s: Seq<u8>, i: int, v: u8) -> Seq<u8> {
    s.update(i, v).update(i + 1, v).update(i + 2, v)
}

/// Whether the text line of a canvas `width` pixels wide must break before
/// a glyph: on a newline, or when the glyph's right edge (`bbox_max_x`, in
/// pixels from the pen) plus the pen position rounded up (`cursor_x_ceil`)
/// reaches the right border.
pub open spec fn line_break_needed(c: char, bbox_max_x: i32, cursor_x_ceil: i32, width: usize) -> bool {
    c == '\n' || bbox_max_x + cursor_x_ceil >= width as i32
}

/// Setting a pixel changes exactly its three bytes, to `v`, and leaves every
/// other byte and the length as they were.
pub proof fn lemma_set_pixel(s: Seq<u8>, i: int, v: u8)
    requires
        0 <= i,
        i + 3 <= s.len(),
    ensures
        set_pixel(s, i, v).len() == s.len(),
        forall|k: int|
            0 <= k < s.len() ==> #[trigger] set_pixel(s, i, v)[k] == if i <= k < i + 3 {
                v
            } else {
                s[k]
            },
{
}

impl TextCanvas {
    /// The canvas holds `line_count` full lines of `width` pixels.
    pub open spec fn wf(&self) -> bool {
        &&& 1 <= self.line_count
        &&& self.line_count * 32 <= i32::MAX
        &&& self.width <= i32::MAX
        &&& self.data@.len() == self.line_count * line_bytes(self.width as int)
    }

    /// A canvas of one black line, `width` pixels wide.
    pub fn new(width: usize) -> (c: TextCanvas)
        requires
            width <= i32::MAX,
            line_bytes(width as int) <= usize::MAX,
        ensures
            c.wf(),
            c.width == width,
            c.line_count == 1,
            c.data@.len() == line_bytes(width as int),
            forall|k: int| 0 <= k < c.data@.len() ==> #[trigger] c.data@[k] == 0,
    {
        let n = width * LINE_HEIGHT * 3;
        let mut data: Vec<u8> = Vec::with_capacity(n);
        while data.len() < n
            invariant
                data@.len() <= n,
                forall|k: int| 0 <= k < data@.len() ==> #[trigger] data@[k] == 0,
            decreases n - data@.len(),
        {
            data.push(0);
        }
        TextCanvas { width, line_count: 1, data }
    }

    /// Appends one black line below the existing ones.
    pub fn break_line(&mut self)
        requires
            old(self).wf(),
            (old(self).line_count + 1) * 32 <= i32::MAX,
            old(self).data@.len() + line_bytes(old(self).width as int) <= usize::MAX,
        ensures
            final(self).wf(),
            final(self).width == old(self).width,
            final(self).line_count == old(self).line_count + 1,
            final(self).data@.len() == old(self).data@.len() + line_bytes(old(self).width as int),
            final(self).data@.subrange(0, old(self).data@.len() as int) == old(self).data@,
            forall|k: int|
                old(self).data@.len() <= k < final(self).data@.len() ==> #[trigger] final(self).data@[k]
                    == 0,
    {
        let n = self.width * LINE_HEIGHT * 3;
        let target = self.data.len() + n;
        let ghost before = self.data@;
        let ghost w = self.width;
        let ghost lc = self.line_count;
        while self.data.len() < target
            invariant
                self.width == w,
                self.line_count == lc,
                n == line_bytes(w as int),
                before.len() + n == target,
                before.len() <= self.data@.len() <= target,
                self.data@.subrange(0, before.len() as int) == before,
                forall|k: int| before.len() <= k < self.data@.len() ==> #[trigger] self.data@[k] == 0,
            decreases target - self.data@.len(),
        {
            self.data.push(0);
        }
        self.line_count = self.line_count + 1;
        assert((self.line_count - 1) * line_bytes(self.width as int) + line_bytes(self.width as int)
            == self.line_count * line_bytes(self.width as int)) by (nonlinear_arith);
    }

    /// Sets the three bytes of pixel (`x`, `y`) to `value` when the pixel
    /// lies inside the canvas; otherwise leaves the canvas unchanged.
    pub fn plot(&mut self, x: i32, y: i32, value: u8)
        requires
            old(self).wf(),
        ensures
            final(self).wf(),
            final(self).width == old(self).width,
            final(self).line_count == old(self).line_count,
            final(self).data@ == if canvas_contains(old(self).width, old(self).line_count, x, y) {
                set_pixel(old(self).data@, canvas_index(old(self).width, x, y), value)
            } else {
                old(self).data@
            },
            final(self).data@.len() == old(self).data@.len(),
            forall|k: int|
                0 <= k < old(self).data@.len() ==> #[trigger] final(self).data@[k] == if 0 <= x
                    < old(self).width && 0 <= y < old(self).line_count * 32 && (y * old(self).width + x)
                    * 3 <= k < (y * old(self).width + x) * 3 + 3 {
                    value
                } else {
                    old(self).data@[k]
                },
    {
        proof {
            assert(self.width as i32 == self.width);
        }
        if x >= 0 && y >= 0 && x < self.width as i32 && y < self.line_count * 32 {
            let xu = x as usize;
            let yu = y as usize;
            proof {
                let w = self.width as int;
                let lc = self.line_count as int;
                assert(xu < w);
                assert(yu < lc * 32);
                assert((yu * w + xu) * 3 + 3 <= lc * (w * 32 * 3) && 0 <= yu * w) by (nonlinear_arith)
                    requires
                        0 <= xu < w,
                        0 <= yu < lc * 32,
                ;
                assert(self.data@.len() == lc * (w * 32 * 3));
                assert((yu * w + xu) * 3 + 3 <= self.data.len());
                assert(yu * self.width + xu <= usize::MAX);
            }
            let i = (yu * self.width + xu) * 3;
            self.data.set(i, value);
            self.data.set(i + 1, value);
            self.data.set(i + 2, value);
        }
    }

    /// The finished image: the canvas width and its pixels.
    pub fn finish(self) -> (t: TextData)
        ensures
            t.width == self.width,
            t.data@ == self.data@,
    {
        TextData { width: self.width, data: self.data }
    }
}

/// Whether a text line of `width` pixels must break before the next glyph;
/// see `line_break_needed`.
pub fn needs_line_break(c: char, bbox_max_x: i32, cursor_x_ceil: i32, width: usize) -> (b: bool)
    requires
        c != '\n' ==> i32::MIN <= bbox_max_x + cursor_x_ceil <= i32::MAX,
    ensures
        b == line_break_needed(c, bbox_max_x, cursor_x_ceil, width),
        b == (c == '\n' || bbox_max_x + cursor_x_ceil >= width as i32),
{
    c == '\n' || bbox_max_x + cursor_x_ceil >= width as i32
}

} // verus!
