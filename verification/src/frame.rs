use vstd::prelude::*;

verus! {

/// Side length, in pixels, of a square animation frame.
pub const FRAME_SIDE: usize = 800;

/// Number of bytes of an RGB frame (three bytes per pixel).
pub const FRAME_BYTES: usize = 1920000;

/// Byte `i` of the frame for animation step `step`: the red channel of every
/// pixel carries the low byte of the step, green and blue stay black.
pub open spec fn frame_byte(step: u16, i: int) -> u8 {
    if i % 3 == 0 {
        step as u8
    } else {
        0
    }
}

/// Builds an 800x800 RGB frame, row-major, three bytes per pixel, in which
/// every pixel is `(step as u8, 0, 0)`.
pub fn generate_frame(step: u16) -> (frame: Vec<u8>)
    ensures
        frame@.len() == FRAME_BYTES,
        FRAME_BYTES == FRAME_SIDE * FRAME_SIDE * 3,
        forall|i: int| 0 <= i < frame@.len() ==> #[trigger] frame@[i] == frame_byte(step, i),
        forall|i: int|
            0 <= i < frame@.len() && i % 3 == 0 ==> #[trigger] frame@[i] == step % 256,
        forall|i: int| 0 <= i < frame@.len() && i % 3 != 0 ==> #[trigger] frame@[i] == 0,
{
    let red: u8 = step as u8;
    let mut frame: Vec<u8> = Vec::with_capacity(FRAME_BYTES);
    let mut p: usize = 0;
    while p < FRAME_SIDE * FRAME_SIDE
        invariant
            p <= FRAME_SIDE * FRAME_SIDE,
            red == step as u8,
            frame@.len() == 3 * p,
            forall|i: int| 0 <= i < frame@.len() ==> #[trigger] frame@[i] == frame_byte(step, i),
        decreases FRAME_SIDE * FRAME_SIDE - p,
    {
        frame.push(red);
        frame.push(0);
        frame.push(0);
        p = p + 1;
    }
    assert forall|i: int| 0 <= i < frame@.len() implies #[trigger] frame@[i] == if i % 3 == 0 {
        step % 256
    } else {
        0
    } by {
        lemma_frame_channels(step, i);
    }
    frame
}

/// Every pixel of a frame is red with the step modulo 256 as intensity:
/// the red byte (index divisible by 3) is `step % 256`, green and blue are 0.
pub proof fn lemma_frame_channels(step: u16, i: int)
    ensures
        i % 3 == 0 ==> frame_byte(step, i) == step % 256,
        i % 3 != 0 ==> frame_byte(step, i) == 0,
{
    assert(step as u8 == step % 256) by (bit_vector);
}

/// Frames 256 steps apart are identical: only the low byte of the step
/// reaches the picture.
pub proof fn lemma_frame_repeats_every_256_steps(step: u16, i: int)
    requires
        step + 256 <= u16::MAX,
    ensures
        frame_byte(step, i) == frame_byte((step + 256) as u16, i),
{
    assert(step as u8 == ((step + 256) as u16) as u8) by (bit_vector)
        requires
            step + 256 <= u16::MAX,
    ;
}

} // verus!
