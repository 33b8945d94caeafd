use vstd::prelude::*;
use crate::canvas::set_pixel;
use crate::text_data::TextData;

verus! {

/// Width in pixels of a two-line label.
pub const LABEL_WIDTH: usize = 300;

/// Number of bytes of one 300x32 RGB label line.
pub const LABEL_LINE_BYTES: usize = 28800;

/// Index of the red byte of pixel (`x`, `y`) of a label line.
pub open spec fn label_offset(x: i32, y: i32) -> int {
    x * 3 + y * 900
}

/// A black label line: 300x32 RGB, every byte zero.
pub fn blank_label_line() -> (line: Vec<u8>)
    ensures
        line@.len() == LABEL_LINE_BYTES,
        forall|k: int| 0 <= k < line@.len() ==> #[trigger] line@[k] == 0,
{
    let mut line: Vec<u8> = Vec::with_capacity(LABEL_LINE_BYTES);
    while line.len() < LABEL_LINE_BYTES
        invariant
            line@.len() <= LABEL_LINE_BYTES,
            forall|k: int| 0 <= k < line@.len() ==> #[trigger] line@[k] == 0,
        decreases LABEL_LINE_BYTES - line@.len(),
    {
        line.push(0);
    }
    line
}

/// Sets pixel (`x`, `y`) of a label line to the gray `value`, skipping
/// pixels at or beyond the right or bottom border. A pixel left of or above
/// the line lands where its offset `x * 3 + y * 900` points, which must then
/// not be negative.
pub fn label_plot_clipped(line: &mut Vec<u8>, x: i32, y: i32, value: u8)
    requires
        old(line)@.len() == LABEL_LINE_BYTES,
        x < 300 && y < 32 ==> 0 <= label_offset(x, y),
    ensures
        final(line)@ == if x >= 300 || y >= 32 {
            old(line)@
        } else {
            set_pixel(old(line)@, label_offset(x, y), value)
        },
        final(line)@.len() == LABEL_LINE_BYTES,
        forall|k: int|
            0 <= k < LABEL_LINE_BYTES ==> #[trigger] final(line)@[k] == if x < 300 && y < 32 && x * 3
                + y * 900 <= k < x * 3 + y * 900 + 3 {
                value
            } else {
                old(line)@[k]
            },
{
    if x >= 300 || y >= 32 {
        return ;
    }
    let offset = (x * 3 + y * 900) as usize;
    line.set(offset, value);
    line.set(offset + 1, value);
    line.set(offset + 2, value);
}

/// Sets pixel (`x`, `y`) of a label line to the gray `value`; the pixel must
/// lie within the line.
pub fn label_plot(line: &mut Vec<u8>, x: i32, y: i32, value: u8)
    requires
        old(line)@.len() == LABEL_LINE_BYTES,
        i32::MIN <= x * 3 <= i32::MAX,
        i32::MIN <= y * 900 <= i32::MAX,
        0 <= label_offset(x, y),
        label_offset(x, y) + 3 <= LABEL_LINE_BYTES,
    ensures
        final(line)@ == set_pixel(old(line)@, label_offset(x, y), value),
        final(line)@.len() == LABEL_LINE_BYTES,
        forall|k: int|
            0 <= k < LABEL_LINE_BYTES ==> #[trigger] final(line)@[k] == if x * 3 + y * 900 <= k < x
                * 3 + y * 900 + 3 {
                value
            } else {
                old(line)@[k]
            },
{
    let offset = (x * 3 + y * 900) as usize;
    line.set(offset, value);
    line.set(offset + 1, value);
    line.set(offset + 2, value);
}

/// Stacks two label lines into one 300-pixel-wide image, `first` on top.
pub fn stack_label_lines(first: Vec<u8>, second: Vec<u8>) -> (t: TextData)
    ensures
        t.width == LABEL_WIDTH,
        t.data@ == first@ + second@,
{
    let mut data = first;
    let mut rest = second;
    data.append(&mut rest);
    TextData { width: LABEL_WIDTH, data }
}

} // verus!
