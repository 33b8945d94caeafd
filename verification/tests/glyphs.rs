use uefi_demo::gray::{
    char_advance, glyph_gray_level, gray8_text, gray_caption, gray_line_fits, GrayLine, GRAY_BYTES,
};
use uefi_demo::mono::{mono_text, MONO_BYTES};

fn px(data: &[u8], width: usize, row: usize, col: usize) -> (u8, u8, u8) {
    let i = (row * width + col) * 3;
    (data[i], data[i + 1], data[i + 2])
}

#[test]
fn mono_empty_line_is_white() {
    let t = mono_text(&vec![]);
    assert_eq!(t.width, 300);
    assert_eq!(t.data.len(), MONO_BYTES);
    assert!(t.data.iter().all(|b| *b == 255));
}

#[test]
fn mono_ink_is_black() {
    let mut g0 = [0u32; 32];
    g0[0] = 1;
    g0[31] = 0x8000_0001;
    let mut g1 = [0u32; 32];
    g1[5] = 1 << 31;
    let t = mono_text(&vec![g0, g1]);
    assert_eq!(px(&t.data, 300, 0, 0), (0, 0, 0));
    assert_eq!(px(&t.data, 300, 0, 1), (255, 255, 255));
    assert_eq!(px(&t.data, 300, 31, 0), (0, 0, 0));
    assert_eq!(px(&t.data, 300, 31, 31), (0, 0, 0));
    assert_eq!(px(&t.data, 300, 31, 32), (255, 255, 255));
    assert_eq!(px(&t.data, 300, 5, 63), (0, 0, 0));
    assert_eq!(px(&t.data, 300, 5, 31), (255, 255, 255));
    let black = t.data.iter().filter(|b| **b == 0).count();
    assert_eq!(black, 4 * 3);
}

#[test]
fn mono_nine_glyphs_fill_the_line() {
    let full = [u32::MAX; 32];
    let t = mono_text(&vec![full; 9]);
    assert_eq!(px(&t.data, 300, 10, 287), (0, 0, 0));
    assert_eq!(px(&t.data, 300, 10, 288), (255, 255, 255));
}

#[test]
fn advance_depends_on_char() {
    assert_eq!(char_advance('a'), 16);
    assert_eq!(char_advance('~'), 16);
    assert_eq!(char_advance(' '), 16);
    assert_eq!(char_advance('中'), 32);
}

fn planes(p0: bool, p1: bool, p2: bool) -> [[u32; 32]; 3] {
    let mut g = [[0u32; 32]; 3];
    if p0 {
        g[0][0] = 1;
    }
    if p1 {
        g[1][0] = 1;
    }
    if p2 {
        g[2][0] = 1;
    }
    g
}

#[test]
fn gray_level_uses_limit_plane_for_low_bits() {
    assert_eq!(glyph_gray_level(&planes(true, false, false), 0, 0, 0), 0xff);
    assert_eq!(glyph_gray_level(&planes(true, false, false), 1, 0, 0), 0x80);
    assert_eq!(glyph_gray_level(&planes(true, true, false), 1, 0, 0), 0xff);
    assert_eq!(glyph_gray_level(&planes(false, false, true), 2, 0, 0), 0x3f);
    assert_eq!(glyph_gray_level(&planes(true, false, true), 2, 0, 0), 0xbf);
    assert_eq!(glyph_gray_level(&planes(false, true, false), 2, 0, 0), 0x40);
    assert_eq!(glyph_gray_level(&planes(true, true, true), 2, 0, 1), 0);
}

#[test]
fn gray_text_renders_three_lines() {
    let lines = vec![
        GrayLine { chars: vec!['中'], glyphs: vec![planes(true, false, false)] },
        GrayLine { chars: vec!['中'], glyphs: vec![planes(true, false, false)] },
        GrayLine { chars: vec!['中'], glyphs: vec![planes(false, false, true)] },
    ];
    let t = gray8_text(&lines);
    assert_eq!(t.width, 500);
    assert_eq!(t.data.len(), GRAY_BYTES);
    assert_eq!(px(&t.data, 500, 0, 0), (0xff, 0xff, 0xff));
    assert_eq!(px(&t.data, 500, 32, 0), (0x80, 0x80, 0x80));
    assert_eq!(px(&t.data, 500, 64, 0), (0x3f, 0x3f, 0x3f));
    assert_eq!(px(&t.data, 500, 1, 0), (0, 0, 0));
    assert_eq!(px(&t.data, 500, 0, 1), (0, 0, 0));
    let lit = t.data.iter().filter(|b| **b != 0).count();
    assert_eq!(lit, 9);
}

#[test]
fn gray_overlapping_narrow_glyphs_are_or_ed() {
    let mut a = [[0u32; 32]; 3];
    a[0][3] = 1 << 20;
    let mut b = [[0u32; 32]; 3];
    b[2][3] = 1 << 4;
    let empty = GrayLine { chars: vec![], glyphs: vec![] };
    let lines = vec![
        empty,
        GrayLine { chars: vec!['a', 'b'], glyphs: vec![a, b] },
        GrayLine { chars: vec!['b'], glyphs: vec![b] },
    ];
    let t = gray8_text(&lines);
    // line 1, row 3: glyph 'a' at x 0 sets column 20 with bit 7 only; glyph
    // 'b' at x 16 also reaches column 20 and adds nothing from plane 2.
    assert_eq!(px(&t.data, 500, 35, 20), (0x80, 0x80, 0x80));
    // line 2, row 3: glyph 'b' at x 0, plane 2 at limit 2 gives bits 5..0.
    assert_eq!(px(&t.data, 500, 67, 4), (0x3f, 0x3f, 0x3f));
    let lit = t.data.iter().filter(|b| **b != 0).count();
    assert_eq!(lit, 6);
}

#[test]
fn gray_caption_of_the_demo_fits() {
    let caption: Vec<char> = "今天又是新的一天 graylevel 8".chars().collect();
    let n = caption.len();
    let full = [[u32::MAX; 32]; 3];
    let lines: Vec<GrayLine> = (0..3)
        .map(|_| GrayLine { chars: caption.clone(), glyphs: vec![full; n] })
        .collect();
    let t = gray8_text(&lines);
    assert_eq!(px(&t.data, 500, 0, 463), (0xff, 0xff, 0xff));
    assert_eq!(px(&t.data, 500, 0, 464), (0, 0, 0));
}


#[test]
fn gray_captions_name_doubling_levels() {
    let expected = ["今天又是新的一天 graylevel 2", "今天又是新的一天 graylevel 4", "今天又是新的一天 graylevel 8"];
    for (line, text) in expected.iter().enumerate() {
        let chars = gray_caption(line);
        assert_eq!(chars, text.chars().collect::<Vec<char>>());
        assert!(gray_line_fits(&chars));
    }
}

#[test]
fn gray_fit_limit() {
    // The 15th wide glyph starts at 448 and ends at 480; a 16th would end at 512.
    assert!(gray_line_fits(&vec!['中'; 15]));
    assert!(!gray_line_fits(&vec!['中'; 16]));
    // 30 narrow glyphs: the last starts at 29 * 16 = 464 and ends at 496.
    assert!(gray_line_fits(&vec!['a'; 30]));
    // 31 narrow glyphs: the last starts at 480 and would end at 512.
    assert!(!gray_line_fits(&vec!['a'; 31]));
    assert!(gray_line_fits(&vec![]));
}
