use uefi_demo::frame::{generate_frame, FRAME_BYTES};
use uefi_demo::text_data::TextData;

#[test]
fn frame_has_step_in_red_channel() {
    let f = generate_frame(7);
    assert_eq!(f.len(), FRAME_BYTES);
    assert_eq!(f.len(), 800 * 800 * 3);
    for p in 0..800 * 800 {
        assert_eq!(f[3 * p], 7);
        assert_eq!(f[3 * p + 1], 0);
        assert_eq!(f[3 * p + 2], 0);
    }
}

#[test]
fn frame_keeps_low_byte_of_step() {
    let f = generate_frame(258);
    assert_eq!(f[0], 2);
    assert_eq!(f[1], 0);
    assert_eq!(f[FRAME_BYTES - 3], 2);
}

#[test]
fn frames_repeat_every_256_steps() {
    assert!(generate_frame(5) == generate_frame(261));
    assert!(generate_frame(5) != generate_frame(6));
}

fn demo_pixel(t: &TextData, row: usize, col: usize) -> (u8, u8, u8) {
    let i = (row * t.width + col) * 3;
    (t.data[i], t.data[i + 1], t.data[i + 2])
}

#[test]
fn demo_pattern_stripes() {
    let t = TextData::demo();
    assert_eq!(t.width, 300);
    assert_eq!(t.data.len(), 270000);
    assert_eq!(demo_pixel(&t, 0, 0), (255, 0, 0));
    assert_eq!(demo_pixel(&t, 9, 9), (255, 0, 0));
    assert_eq!(demo_pixel(&t, 0, 10), (0, 255, 0));
    assert_eq!(demo_pixel(&t, 0, 20), (0, 0, 255));
    assert_eq!(demo_pixel(&t, 10, 10), (0, 0, 255));
    assert_eq!(demo_pixel(&t, 0, 30), (255, 0, 0));
    assert_eq!(demo_pixel(&t, 299, 299), (0, 255, 0));
}

#[test]
fn demo_stripes_cycle_every_ten_pixels() {
    let t = TextData::demo();
    for row in 0..290 {
        for col in 0..290 {
            let here = demo_pixel(&t, row, col);
            let right = demo_pixel(&t, row, col + 10);
            let down = demo_pixel(&t, row + 10, col);
            let next = (here.2, here.0, here.1);
            assert_eq!(right, next);
            assert_eq!(down, next);
        }
    }
}

#[test]
fn position_counts_whole_lines() {
    let t = TextData::demo();
    let g = t.position(100, -4);
    assert_eq!(g.x, 100);
    assert_eq!(g.y, -4);
    assert_eq!(g.line_count, 9);
    let u = TextData { width: 10, data: vec![0; 10 * 3 * 32 * 2 + 5] };
    assert_eq!(u.position(0, 0).line_count, 2);
    let e = TextData { width: 10, data: vec![] };
    assert_eq!(e.position(0, 0).line_count, 0);
}
